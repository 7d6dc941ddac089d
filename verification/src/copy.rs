//! The copy engine: from the entries of a source tree to the plan of a run.
//!
//! A run has two phases. Every directory in scope is handled first, one after
//! the other and in traversal order, so that a directory exists before
//! anything is written into it. The files follow, one step for each file in
//! scope, in traversal order or handed out to workers. The destination root
//! itself is no step of the plan: whoever carries the plan out establishes it
//! before the first step. A directory that cannot be created is logged by the
//! caller and the run goes on; the files below it then fail on their own,
//! each still counted as attempted.

use vstd::prelude::*;
use crate::action::{Action, ActionView, Step};
use crate::entry::{Entry, EntryKind, EntryView};
use crate::exclude::{excluded, is_excluded};
use crate::options::{CopyOptions, CopyOptionsView, ExecutionMode};
use crate::path::{file_name, file_name_of, join, joined};
use crate::stats::{CopyStats, Counts};

verus! {

/// How many names below the source root a run reaches: one where it does not
/// recurse, and any number where it does.
pub open spec fn depth_bound(recursive: bool) -> Option<nat> {
    if recursive {
        None
    } else {
        Some(1)
    }
}

/// The entry lies within the depth bound.
///
/// The source root itself never does: it is what the destination root stands
/// for. A file does where it is no deeper than the bound. A directory does
/// where the traversal may enter it, that is where it lies above the bound: a
/// directory on the bound would receive nothing and is left alone.
pub open spec fn within(entry: EntryView, bound: Option<nat>) -> bool {
    &&& entry.depth() >= 1
    &&& match bound {
        None => true,
        Some(b) => match entry.kind {
            EntryKind::File => entry.depth() <= b,
            EntryKind::Directory => entry.depth() < b,
        },
    }
}

/// The entry is one that a run with this recursion flag handles.
pub open spec fn in_scope(entry: EntryView, recursive: bool) -> bool {
    within(entry, depth_bound(recursive))
}

/// Picks the directories in scope.
pub open spec fn directory_in_scope(recursive: bool) -> spec_fn(EntryView) -> bool {
    |e: EntryView| e.kind == EntryKind::Directory && in_scope(e, recursive)
}

/// Picks the files in scope.
pub open spec fn file_in_scope(recursive: bool) -> spec_fn(EntryView) -> bool {
    |e: EntryView| e.kind == EntryKind::File && in_scope(e, recursive)
}

/// Picks the entries that no exclusion leaves out.
pub open spec fn kept(excludes: Seq<Seq<char>>) -> spec_fn(EntryView) -> bool {
    |e: EntryView| !excluded(e, excludes)
}

/// The directories that a run handles, in traversal order.
pub open spec fn directories_in_scope(entries: Seq<EntryView>, recursive: bool) -> Seq<EntryView> {
    entries.filter(directory_in_scope(recursive))
}

/// The files that a run handles or skips, in traversal order.
pub open spec fn files_in_scope(entries: Seq<EntryView>, recursive: bool) -> Seq<EntryView> {
    entries.filter(file_in_scope(recursive))
}

/// What a run does, or in a dry run simulates, for an entry: the step that
/// replays it below the destination root.
pub open spec fn replay(options: CopyOptionsView, entry: EntryView, announce: bool) -> ActionView {
    ActionView {
        kind: entry.kind,
        source: entry.path,
        destination: joined(options.destination, entry.relative),
        step: if options.dry_run {
            Step::Simulate
        } else {
            Step::Perform { announce }
        },
    }
}

/// The step for a directory: create it below the destination root and give
/// it the permissions of its source.
pub open spec fn directory_action(options: CopyOptionsView, entry: EntryView) -> ActionView {
    replay(options, entry, options.show_dirs)
}

/// The step for a file that is not excluded: copy it below the destination
/// root and give the copy the permissions of its source.
pub open spec fn copy_action(options: CopyOptionsView, entry: EntryView) -> ActionView {
    replay(options, entry, options.show_files)
}

/// The step for a file: a skip where it is excluded, its copy where not.
pub open spec fn file_action(options: CopyOptionsView, entry: EntryView) -> ActionView {
    if excluded(entry, options.excludes) {
        ActionView { step: Step::Skip, ..copy_action(options, entry) }
    } else {
        copy_action(options, entry)
    }
}

/// Builds the directory step of each entry.
pub open spec fn to_directory_action(options: CopyOptionsView) -> spec_fn(EntryView) -> ActionView {
    |e: EntryView| directory_action(options, e)
}

/// Builds the file step of each entry.
pub open spec fn to_file_action(options: CopyOptionsView) -> spec_fn(EntryView) -> ActionView {
    |e: EntryView| file_action(options, e)
}

/// The counters of a run over files and directories that are already told
/// apart: every directory counts, and every file that is not excluded.
pub open spec fn counted(
    files: Seq<EntryView>,
    dirs: Seq<EntryView>,
    excludes: Seq<Seq<char>>,
) -> Counts {
    Counts { files: files.filter(kept(excludes)).len(), dirs: dirs.len() }
}

/// The mathematical content of a [`CopyPlan`].
pub struct CopyPlanView {
    pub mode: ExecutionMode,
    pub directories: Seq<ActionView>,
    pub files: Seq<ActionView>,
    pub stats: Counts,
}

/// The plan of a run: what it does for `entries` under `options`, with its
/// file phase carried out in `mode`.
pub open spec fn plan_of(
    options: CopyOptionsView,
    entries: Seq<EntryView>,
    mode: ExecutionMode,
) -> CopyPlanView {
    let dirs = directories_in_scope(entries, options.recursive);
    let files = files_in_scope(entries, options.recursive);
    CopyPlanView {
        mode,
        directories: dirs.map_values(to_directory_action(options)),
        files: files.map_values(to_file_action(options)),
        stats: counted(files, dirs, options.excludes),
    }
}

/// Everything a run does, decided before anything is done.
#[derive(Debug, PartialEq, Eq)]
pub struct CopyPlan {
    /// How the file phase is carried out.
    pub mode: ExecutionMode,
    /// The directory phase: one step for each directory in scope, to be
    /// carried out in this order and to the end before the file phase begins.
    pub directories: Vec<Action>,
    /// The file phase: one step for each file in scope, skips included.
    pub files: Vec<Action>,
    /// What the run reports once both phases are over.
    pub stats: CopyStats,
}

impl View for CopyPlan {
    type V = CopyPlanView;

    open spec fn view(&self) -> CopyPlanView {
        CopyPlanView {
            mode: self.mode,
            directories: self.directories.deep_view(),
            files: self.files.deep_view(),
            stats: self.stats@,
        }
    }
}

impl CopyPlanView {
    /// The number of progress events of a run: one for each step.
    pub open spec fn progress_total(self) -> nat {
        self.directories.len() + self.files.len()
    }
}

impl CopyPlan {
    /// The total to announce to a progress display before the first step:
    /// every step of the plan advances the display by one when it is over,
    /// whether it copied, simulated, skipped or failed. A total beyond the
    /// range of the result is announced as the largest number there is.
    pub fn progress_total(&self) -> (total: u64)
        ensures
            total == if self@.progress_total() <= u64::MAX {
                self@.progress_total()
            } else {
                u64::MAX as nat
            },
    {
        let directories = self.directories.len() as u64;
        let files = self.files.len() as u64;
        match directories.checked_add(files) {
            Some(total) => total,
            None => u64::MAX,
        }
    }
}

/// The depth to which a traversal has to go for a run with this recursion
/// flag: what lies deeper is out of scope.
pub fn max_depth(recursive: bool) -> (bound: Option<usize>)
    ensures
        bound is Some <==> depth_bound(recursive) is Some,
        bound matches Some(b) ==> depth_bound(recursive) == Some(b as nat),
{
    if recursive {
        None
    } else {
        Some(1)
    }
}

/// Whether a run with this recursion flag handles `entry`.
pub fn entry_in_scope(entry: &Entry, recursive: bool) -> (inside: bool)
    ensures
        inside == in_scope(entry@, recursive),
{
    let depth = entry.depth();
    if depth == 0 {
        false
    } else if recursive {
        true
    } else {
        match entry.kind() {
            EntryKind::File => depth == 1,
            EntryKind::Directory => false,
        }
    }
}

/// Tells the directories in scope from the files in scope, keeping the
/// traversal order within each, and drops what is out of scope.
pub fn partition<'a>(entries: &'a [Entry], recursive: bool) -> (parts: (
    Vec<&'a Entry>,
    Vec<&'a Entry>,
))
    ensures
        parts.0.deep_view() == directories_in_scope(entries.deep_view(), recursive),
        parts.1.deep_view() == files_in_scope(entries.deep_view(), recursive),
{
    let mut dirs: Vec<&Entry> = Vec::new();
    let mut files: Vec<&Entry> = Vec::new();
    let ghost all = entries.deep_view();
    let mut i: usize = 0;
    proof {
        reveal(Seq::filter);
        assert(all.take(0).filter(directory_in_scope(recursive)) =~= Seq::empty());
        assert(all.take(0).filter(file_in_scope(recursive)) =~= Seq::empty());
        assert(dirs.deep_view() =~= Seq::empty());
        assert(files.deep_view() =~= Seq::empty());
    }
    while i < entries.len()
        invariant
            i <= entries.len(),
            all == entries.deep_view(),
            dirs.deep_view() == all.take(i as int).filter(directory_in_scope(recursive)),
            files.deep_view() == all.take(i as int).filter(file_in_scope(recursive)),
        decreases entries.len() - i,
    {
        let entry = &entries[i];
        let ghost before_dirs = dirs.deep_view();
        let ghost before_files = files.deep_view();
        proof {
            assert(all.take(i + 1) =~= all.take(i as int).push(entry@));
            all.take(i as int).lemma_filter_push(entry@, directory_in_scope(recursive));
            all.take(i as int).lemma_filter_push(entry@, file_in_scope(recursive));
        }
        if entry_in_scope(entry, recursive) {
            if entry.is_dir() {
                dirs.push(entry);
                assert(dirs.deep_view() =~= before_dirs.push(entry@));
            } else {
                files.push(entry);
                assert(files.deep_view() =~= before_files.push(entry@));
            }
        }
        i += 1;
    }
    assert(all.take(entries.len() as int) =~= all);
    (dirs, files)
}

/// Plans the step for a directory: where it goes below the destination root,
/// and whether it is created or only simulated.
pub fn create_directories(entry: &Entry, options: &CopyOptions) -> (action: Action)
    ensures
        action@ == directory_action(options@, entry@),
{
    Action {
        kind: entry.kind(),
        source: entry.path().to_owned(),
        destination: join(options.destination.as_str(), entry.relative()),
        step: if options.dry_run {
            Step::Simulate
        } else {
            Step::Perform { announce: options.show_dirs }
        },
    }
}

/// Plans the step for a file that is not excluded: where its copy goes below
/// the destination root, and whether it is made or only simulated.
pub fn create_files(entry: &Entry, options: &CopyOptions) -> (action: Action)
    ensures
        action@ == copy_action(options@, entry@),
{
    Action {
        kind: entry.kind(),
        source: entry.path().to_owned(),
        destination: join(options.destination.as_str(), entry.relative()),
        step: if options.dry_run {
            Step::Simulate
        } else {
            Step::Perform { announce: options.show_files }
        },
    }
}

/// Plans the step for a file: a skip where an exclusion names its extension,
/// its copy where none does.
pub fn dispatch(entry: &Entry, options: &CopyOptions) -> (action: Action)
    ensures
        action@ == file_action(options@, entry@),
{
    let mut action = create_files(entry, options);
    if is_excluded(entry, options.excludes.as_slice()) {
        action.step = Step::Skip;
    }
    action
}

/// Counts what a run over these files and directories reports: every
/// directory, and every file that is not excluded.
pub fn get_copy_stats(files: &Vec<&Entry>, dirs: &Vec<&Entry>, options: &CopyOptions) -> (stats:
    CopyStats)
    ensures
        stats@ == counted(files.deep_view(), dirs.deep_view(), options@.excludes),
{
    let ghost all = files.deep_view();
    let ghost keep = kept(options@.excludes);
    let mut copied: usize = 0;
    let mut i: usize = 0;
    proof {
        reveal(Seq::filter);
        assert(all.take(0).filter(keep) =~= Seq::empty());
    }
    while i < files.len()
        invariant
            i <= files.len(),
            all == files.deep_view(),
            keep == kept(options@.excludes),
            copied == all.take(i as int).filter(keep).len(),
            copied <= i,
        decreases files.len() - i,
    {
        proof {
            assert(all.take(i + 1) =~= all.take(i as int).push(files[i as int]@));
            all.take(i as int).lemma_filter_push(files[i as int]@, keep);
        }
        if !is_excluded(files[i], options.excludes.as_slice()) {
            copied += 1;
        }
        i += 1;
    }
    assert(all.take(files.len() as int) =~= all);
    CopyStats { files: copied as u64, dirs: dirs.len() as u64 }
}

/// Plans a run over `entries` whose file phase is carried out in `mode`.
fn plan(options: &CopyOptions, entries: &[Entry], mode: ExecutionMode) -> (plan: CopyPlan)
    ensures
        plan@ == plan_of(options@, entries.deep_view(), mode),
{
    let (dirs, files) = partition(entries, options.recursive);
    let ghost dir_views = dirs.deep_view();
    let ghost file_views = files.deep_view();
    let ghost o = options@;

    let mut directories: Vec<Action> = Vec::new();
    let mut i: usize = 0;
    assert(directories.deep_view() =~= dir_views.take(0).map_values(to_directory_action(o)));
    while i < dirs.len()
        invariant
            i <= dirs.len(),
            o == options@,
            dir_views == dirs.deep_view(),
            directories.deep_view() == dir_views.take(i as int).map_values(
                to_directory_action(o),
            ),
        decreases dirs.len() - i,
    {
        let action = create_directories(dirs[i], options);
        let ghost before = directories.deep_view();
        directories.push(action);
        proof {
            assert(directories.deep_view() =~= before.push(action@));
            assert(dir_views.take(i + 1) =~= dir_views.take(i as int).push(dirs[i as int]@));
            dir_views.take(i as int).lemma_push_map_commute(
                to_directory_action(o),
                dirs[i as int]@,
            );
        }
        i += 1;
    }
    assert(dir_views.take(dirs.len() as int) =~= dir_views);

    let mut steps: Vec<Action> = Vec::new();
    let mut j: usize = 0;
    assert(steps.deep_view() =~= file_views.take(0).map_values(to_file_action(o)));
    while j < files.len()
        invariant
            j <= files.len(),
            o == options@,
            file_views == files.deep_view(),
            steps.deep_view() == file_views.take(j as int).map_values(to_file_action(o)),
        decreases files.len() - j,
    {
        let action = dispatch(files[j], options);
        let ghost before = steps.deep_view();
        steps.push(action);
        proof {
            assert(steps.deep_view() =~= before.push(action@));
            assert(file_views.take(j + 1) =~= file_views.take(j as int).push(files[j as int]@));
            file_views.take(j as int).lemma_push_map_commute(to_file_action(o), files[j as int]@);
        }
        j += 1;
    }
    assert(file_views.take(files.len() as int) =~= file_views);

    let stats = get_copy_stats(&files, &dirs, options);
    CopyPlan { mode, directories, files: steps, stats }
}

/// Plans a run that copies one file at a time, in traversal order.
pub fn copy_single_threaded(options: &CopyOptions, entries: &[Entry]) -> (plan: CopyPlan)
    ensures
        plan@ == plan_of(options@, entries.deep_view(), ExecutionMode::Sequential),
{
    plan(options, entries, ExecutionMode::Sequential)
}

/// Plans a run whose files are handed out to a pool of workers.
///
/// The directory phase is the same as in a sequential run and comes first;
/// the file steps are the same too, each to be carried out exactly once, in
/// whatever order the workers take them.
pub fn copy_parallel(options: &CopyOptions, entries: &[Entry]) -> (plan: CopyPlan)
    ensures
        plan@ == plan_of(options@, entries.deep_view(), ExecutionMode::Concurrent),
{
    plan(options, entries, ExecutionMode::Concurrent)
}

/// Plans a run over `entries` as `options` configure it, with the strategy
/// that they select.
pub fn run_copy(options: &CopyOptions, entries: &[Entry]) -> (plan: CopyPlan)
    ensures
        plan@ == plan_of(options@, entries.deep_view(), options@.mode),
{
    match options.mode {
        ExecutionMode::Sequential => copy_single_threaded(options, entries),
        ExecutionMode::Concurrent => copy_parallel(options, entries),
    }
}

/// Where a single file goes: into the destination where that is a directory,
/// under its own name, and to the destination path itself where not.
pub open spec fn single_target(
    source: Seq<char>,
    destination: Seq<char>,
    destination_is_dir: bool,
) -> Seq<char> {
    if destination_is_dir {
        joined(destination, file_name_of(source))
    } else {
        destination
    }
}

/// The one step of a run whose source is a plain file.
pub open spec fn single_action(
    source: Seq<char>,
    destination: Seq<char>,
    destination_is_dir: bool,
    dry_run: bool,
) -> ActionView {
    ActionView {
        kind: EntryKind::File,
        source,
        destination: single_target(source, destination, destination_is_dir),
        step: if dry_run {
            Step::Simulate
        } else {
            Step::Perform { announce: true }
        },
    }
}

/// Decides whether a run is the copy of a single file, and plans it if so.
///
/// Where the source is a plain file there is nothing to traverse: the run is
/// one copy, or its simulation, and this is it. Where the source is anything
/// else there is no such step, and the run goes through a plan.
pub fn copied_single(
    source: &str,
    destination: &str,
    source_is_file: bool,
    destination_is_dir: bool,
    dry_run: bool,
) -> (action: Option<Action>)
    ensures
        action is Some <==> source_is_file,
        action matches Some(a) ==> a@ == single_action(
            source@,
            destination@,
            destination_is_dir,
            dry_run,
        ),
{
    if !source_is_file {
        return None;
    }
    let target = if destination_is_dir {
        let name = file_name(source);
        join(destination, name.as_str())
    } else {
        destination.to_owned()
    };
    Some(
        Action {
            kind: EntryKind::File,
            source: source.to_owned(),
            destination: target,
            step: if dry_run {
                Step::Simulate
            } else {
                Step::Perform { announce: true }
            },
        },
    )
}

} // verus!
