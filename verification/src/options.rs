//! The configuration of one run, and how command-line flags resolve to it.

use vstd::prelude::*;

verus! {

/// How the file phase of a run is carried out.
#[derive(Clone, Copy, Debug, PartialEq, Eq, Structural)]
pub enum ExecutionMode {
    /// One file at a time, in traversal order.
    Sequential,
    /// Files handed out to a pool of workers, in no particular order.
    Concurrent,
}

/// The switches that a caller collected, before any of them is weighed
/// against another.
#[derive(Clone, Copy, Debug, PartialEq, Eq, Structural)]
pub struct Flags {
    /// Log every file and directory.
    pub verbose: bool,
    /// Log files only.
    pub only_files: bool,
    /// Log directories only.
    pub only_dirs: bool,
    /// Simulate: log what would be done, change nothing.
    pub dry_run: bool,
    /// Copy what lies directly in the source root, and nothing below.
    pub no_recursive: bool,
    /// Copy one file at a time.
    pub single_thread: bool,
}

/// Why a set of arguments is no configuration.
#[derive(Clone, Copy, Debug, PartialEq, Eq, Structural)]
pub enum ConfigError {
    /// Source and destination name the same path.
    SameSourceAndDestination,
}

/// The mathematical content of [`CopyOptions`].
pub struct CopyOptionsView {
    pub source: Seq<char>,
    pub destination: Seq<char>,
    pub show_files: bool,
    pub show_dirs: bool,
    pub recursive: bool,
    pub dry_run: bool,
    pub excludes: Seq<Seq<char>>,
    pub mode: ExecutionMode,
}

/// The configuration of one run, fixed before the run begins.
#[derive(Debug, PartialEq, Eq)]
pub struct CopyOptions {
    /// The root of the tree to copy.
    pub source: String,
    /// The root below which the tree is replayed.
    pub destination: String,
    /// Log each file that was copied.
    pub show_files: bool,
    /// Log each directory that was created.
    pub show_dirs: bool,
    /// Descend below the source root; without it only what lies directly in
    /// the root is in scope.
    pub recursive: bool,
    /// Simulate: log what would be done, change nothing.
    pub dry_run: bool,
    /// Extensions of files to leave out, with or without leading dots.
    pub excludes: Vec<String>,
    /// How the file phase is carried out.
    pub mode: ExecutionMode,
}

impl View for CopyOptions {
    type V = CopyOptionsView;

    open spec fn view(&self) -> CopyOptionsView {
        CopyOptionsView {
            source: self.source@,
            destination: self.destination@,
            show_files: self.show_files,
            show_dirs: self.show_dirs,
            recursive: self.recursive,
            dry_run: self.dry_run,
            excludes: self.excludes.deep_view(),
            mode: self.mode,
        }
    }
}

/// Which log lines a run shows, as `(files, directories)`.
///
/// Verbose shows both, whatever the filters say. A dry run that is not
/// verbose shows both unless a filter narrows it, and then what the filter
/// names, files winning where both filters are set. Any other run shows
/// neither.
pub open spec fn visibility_of(flags: Flags) -> (bool, bool) {
    if flags.verbose {
        (true, true)
    } else if !flags.dry_run {
        (false, false)
    } else if flags.only_files {
        (true, false)
    } else if flags.only_dirs {
        (false, true)
    } else {
        (true, true)
    }
}

/// The flags ask for everything and for a part at once: verbose together
/// with one of the filters.
pub open spec fn conflicting(flags: Flags) -> bool {
    flags.verbose && (flags.only_files || flags.only_dirs)
}

/// The configuration that `flags` resolve to.
pub open spec fn resolved(
    source: Seq<char>,
    destination: Seq<char>,
    excludes: Seq<Seq<char>>,
    flags: Flags,
) -> CopyOptionsView {
    CopyOptionsView {
        source,
        destination,
        show_files: visibility_of(flags).0,
        show_dirs: visibility_of(flags).1,
        recursive: !flags.no_recursive,
        dry_run: flags.dry_run,
        excludes,
        mode: if flags.single_thread {
            ExecutionMode::Sequential
        } else {
            ExecutionMode::Concurrent
        },
    }
}

impl Flags {
    /// Which log lines a run with these flags shows, as `(files,
    /// directories)`: one row for each combination of verbosity, dry run and
    /// the two filters.
    pub fn visibility(&self) -> (shown: (bool, bool))
        ensures
            shown == visibility_of(*self),
    {
        match (self.verbose, self.dry_run, self.only_files, self.only_dirs) {
            (true, _, _, _) => (true, true),
            (false, false, _, _) => (false, false),
            (false, true, true, _) => (true, false),
            (false, true, false, true) => (false, true),
            (false, true, false, false) => (true, true),
        }
    }

    /// Whether the caller should be warned that verbose overrides a filter.
    pub fn conflict(&self) -> (warn: bool)
        ensures
            warn == conflicting(*self),
    {
        self.verbose && (self.only_files || self.only_dirs)
    }
}

impl CopyOptions {
    /// Resolves what the caller collected into the configuration of a run.
    ///
    /// Fails where source and destination are the same path, and on nothing
    /// else.
    pub fn resolve(
        source: String,
        destination: String,
        excludes: Vec<String>,
        flags: Flags,
    ) -> (options: Result<CopyOptions, ConfigError>)
        ensures
            options is Err <==> source@ == destination@,
            options matches Err(e) ==> e == ConfigError::SameSourceAndDestination,
            options matches Ok(o) ==> o@ == resolved(
                source@,
                destination@,
                excludes.deep_view(),
                flags,
            ),
    {
        if source == destination {
            return Err(ConfigError::SameSourceAndDestination);
        }
        let (show_files, show_dirs) = flags.visibility();
        Ok(
            CopyOptions {
                source,
                destination,
                show_files,
                show_dirs,
                recursive: !flags.no_recursive,
                dry_run: flags.dry_run,
                excludes,
                mode: if flags.single_thread {
                    ExecutionMode::Sequential
                } else {
                    ExecutionMode::Concurrent
                },
            },
        )
    }
}

} // verus!
