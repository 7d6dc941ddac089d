//! What holds of every plan.

use vstd::prelude::*;
use crate::action::{simulated_mark, ActionView, Step};
use crate::aggregate::{lemma_tally_any_order, lemma_tally_splits, tally_of};
use crate::copy::{
    copy_action, directories_in_scope, directory_action, directory_in_scope, file_action,
    file_in_scope, files_in_scope, in_scope, kept, plan_of, to_directory_action, to_file_action,
};
use crate::entry::{EntryKind, EntryView};
use crate::exclude::excluded;
use crate::options::{CopyOptionsView, ExecutionMode};
use crate::path::joined;
use crate::stats::Counts;

verus! {

/// Picks the steps that are not skips.
pub open spec fn carried_out() -> spec_fn(ActionView) -> bool {
    |a: ActionView| !(a.step is Skip)
}

/// Builds the copy step of each entry.
pub open spec fn to_copy_action(options: CopyOptionsView) -> spec_fn(EntryView) -> ActionView {
    |e: EntryView| copy_action(options, e)
}

/// Turns each step into its simulation.
pub open spec fn to_simulated() -> spec_fn(ActionView) -> ActionView {
    |a: ActionView| a.simulated()
}

/// The same options with the dry-run flag set as given.
pub open spec fn with_dry_run(options: CopyOptionsView, dry_run: bool) -> CopyOptionsView {
    CopyOptionsView { dry_run, ..options }
}

/// The same options with other exclusions.
pub open spec fn with_excludes(
    options: CopyOptionsView,
    excludes: Seq<Seq<char>>,
) -> CopyOptionsView {
    CopyOptionsView { excludes, ..options }
}

/// Filtering what a function made of a sequence is the same as filtering the
/// sequence first, by what the function would make of each item.
proof fn lemma_filter_of_mapped<A, B>(
    s: Seq<A>,
    f: spec_fn(A) -> B,
    p: spec_fn(B) -> bool,
    q: spec_fn(A) -> bool,
)
    requires
        forall|x: A| #[trigger] q(x) == p(f(x)),
    ensures
        s.map_values(f).filter(p) == s.filter(q).map_values(f),
    decreases s.len(),
{
    reveal(Seq::filter);
    if s.len() == 0 {
        assert(s.map_values(f).filter(p) =~= s.filter(q).map_values(f));
    } else {
        lemma_filter_of_mapped(s.drop_last(), f, p, q);
        assert(s.map_values(f).drop_last() =~= s.drop_last().map_values(f));
        assert(s.map_values(f).last() == f(s.last()));
        if q(s.last()) {
            s.drop_last().filter(q).lemma_push_map_commute(f, s.last());
        }
    }
}

/// What the directory steps of a run count: one directory each.
proof fn lemma_tally_of_directories(options: CopyOptionsView, dirs: Seq<EntryView>)
    requires
        forall|i: int| 0 <= i < dirs.len() ==> (#[trigger] dirs[i]).kind == EntryKind::Directory,
    ensures
        tally_of(dirs.map_values(to_directory_action(options))) == (Counts {
            files: 0,
            dirs: dirs.len(),
        }),
    decreases dirs.len(),
{
    if dirs.len() > 0 {
        let steps = dirs.map_values(to_directory_action(options));
        lemma_tally_of_directories(options, dirs.drop_last());
        assert(steps.drop_last() =~= dirs.drop_last().map_values(to_directory_action(options)));
        assert(steps.last().kind == dirs.last().kind);
    }
}

/// What the file steps of a run count: one file for each that is not
/// excluded.
proof fn lemma_tally_of_files(options: CopyOptionsView, files: Seq<EntryView>)
    requires
        forall|i: int| 0 <= i < files.len() ==> (#[trigger] files[i]).kind == EntryKind::File,
    ensures
        tally_of(files.map_values(to_file_action(options))) == (Counts {
            files: files.filter(kept(options.excludes)).len(),
            dirs: 0,
        }),
    decreases files.len(),
{
    reveal(Seq::filter);
    if files.len() > 0 {
        let steps = files.map_values(to_file_action(options));
        lemma_tally_of_files(options, files.drop_last());
        assert(steps.drop_last() =~= files.drop_last().map_values(to_file_action(options)));
        assert(steps.last() == file_action(options, files.last()));
    }
}

/// Every entry among the directories in scope is a directory in scope, and
/// every entry among the files in scope a file in scope.
pub proof fn lemma_parts_hold_their_kind(entries: Seq<EntryView>, recursive: bool)
    ensures
        forall|i: int|
            0 <= i < directories_in_scope(entries, recursive).len() ==> directory_in_scope(
                recursive,
            )(#[trigger] directories_in_scope(entries, recursive)[i]),
        forall|i: int|
            0 <= i < files_in_scope(entries, recursive).len() ==> file_in_scope(recursive)(
                #[trigger] files_in_scope(entries, recursive)[i],
            ),
{
    let dirs = directories_in_scope(entries, recursive);
    let files = files_in_scope(entries, recursive);
    assert forall|i: int| 0 <= i < dirs.len() implies directory_in_scope(recursive)(
        #[trigger] dirs[i],
    ) by {
        entries.lemma_filter_pred(directory_in_scope(recursive), i);
    }
    assert forall|i: int| 0 <= i < files.len() implies file_in_scope(recursive)(
        #[trigger] files[i],
    ) by {
        entries.lemma_filter_pred(file_in_scope(recursive), i);
    }
}

/// The statistics of a plan are what its steps add up to: every directory
/// step counts one directory, every file step that is not a skip one file.
pub proof fn lemma_stats_are_the_tally(
    options: CopyOptionsView,
    entries: Seq<EntryView>,
    mode: ExecutionMode,
)
    ensures
        tally_of(plan_of(options, entries, mode).directories).plus(
            tally_of(plan_of(options, entries, mode).files),
        ) == plan_of(options, entries, mode).stats,
{
    lemma_parts_hold_their_kind(entries, options.recursive);
    lemma_tally_of_directories(options, directories_in_scope(entries, options.recursive));
    lemma_tally_of_files(options, files_in_scope(entries, options.recursive));
}

/// The sequential and the concurrent strategy plan the same steps and report
/// the same statistics.
pub proof fn lemma_strategies_agree(options: CopyOptionsView, entries: Seq<EntryView>)
    ensures
        plan_of(options, entries, ExecutionMode::Concurrent).stats == plan_of(
            options,
            entries,
            ExecutionMode::Sequential,
        ).stats,
        plan_of(options, entries, ExecutionMode::Concurrent).directories == plan_of(
            options,
            entries,
            ExecutionMode::Sequential,
        ).directories,
        plan_of(options, entries, ExecutionMode::Concurrent).files == plan_of(
            options,
            entries,
            ExecutionMode::Sequential,
        ).files,
{
}

/// However the file phase is carried out, the counts come out the same.
///
/// Let the file steps of a plan be shared out into two batches, each carried
/// out in any order, as long as every step is carried out exactly once. Then
/// the tally of the directory phase and the tallies of the two batches add up
/// to the statistics of the plan.
pub proof fn lemma_counts_whatever_the_order(
    options: CopyOptionsView,
    entries: Seq<EntryView>,
    mode: ExecutionMode,
    first: Seq<ActionView>,
    second: Seq<ActionView>,
)
    requires
        (first + second).to_multiset() == plan_of(options, entries, mode).files.to_multiset(),
    ensures
        tally_of(plan_of(options, entries, mode).directories).plus(
            tally_of(first).plus(tally_of(second)),
        ) == plan_of(options, entries, mode).stats,
{
    lemma_tally_splits(first, second);
    lemma_tally_any_order(first + second, plan_of(options, entries, mode).files);
    lemma_stats_are_the_tally(options, entries, mode);
}

/// The files that a run copies, or in a dry run simulates, are exactly the
/// files in scope that no exclusion names, in traversal order, each from its
/// path in the source tree to its relative path below the destination root.
pub proof fn lemma_copies_are_the_kept_files(
    options: CopyOptionsView,
    entries: Seq<EntryView>,
    mode: ExecutionMode,
)
    ensures
        plan_of(options, entries, mode).files.filter(carried_out()) == files_in_scope(
            entries,
            options.recursive,
        ).filter(kept(options.excludes)).map_values(to_copy_action(options)),
        forall|i: int|
            0 <= i < plan_of(options, entries, mode).files.filter(carried_out()).len() ==> {
                let step = #[trigger] plan_of(options, entries, mode).files.filter(
                    carried_out(),
                )[i];
                let file = files_in_scope(entries, options.recursive).filter(
                    kept(options.excludes),
                )[i];
                &&& step.kind == EntryKind::File
                &&& step.source == file.path
                &&& step.destination == joined(options.destination, file.relative)
                &&& step.mutates() == !options.dry_run
            },
{
    let files = files_in_scope(entries, options.recursive);
    let keep = kept(options.excludes);
    lemma_parts_hold_their_kind(entries, options.recursive);
    lemma_filter_of_mapped(files, to_file_action(options), carried_out(), keep);
    let survivors = files.filter(keep);
    assert forall|i: int| 0 <= i < survivors.len() implies to_file_action(options)(
        #[trigger] survivors[i],
    ) == to_copy_action(options)(survivors[i]) && survivors[i].kind == EntryKind::File by {
        files.lemma_filter_pred(keep, i);
        broadcast use Seq::lemma_filter_contains_rev;
        assert(survivors.contains(survivors[i]));
        assert(files.contains(survivors[i]));
    }
    assert(survivors.map_values(to_file_action(options)) =~= survivors.map_values(
        to_copy_action(options),
    ));
}

/// The directory phase does not depend on the exclusions: whatever
/// extensions are excluded, the same directories are handled in the same way,
/// and the statistics count every directory in scope.
pub proof fn lemma_directories_ignore_exclusions(
    options: CopyOptionsView,
    entries: Seq<EntryView>,
    mode: ExecutionMode,
    other: Seq<Seq<char>>,
)
    ensures
        plan_of(options, entries, mode).stats.dirs == directories_in_scope(
            entries,
            options.recursive,
        ).len(),
        plan_of(with_excludes(options, other), entries, mode).stats.dirs == plan_of(
            options,
            entries,
            mode,
        ).stats.dirs,
        plan_of(with_excludes(options, other), entries, mode).directories == plan_of(
            options,
            entries,
            mode,
        ).directories,
        forall|i: int|
            0 <= i < plan_of(options, entries, mode).directories.len() ==> !((
            #[trigger] plan_of(options, entries, mode).directories[i]).step is Skip),
{
    let dirs = directories_in_scope(entries, options.recursive);
    assert(dirs.map_values(to_directory_action(with_excludes(options, other)))
        =~= dirs.map_values(to_directory_action(options)));
}

/// No entry is both among the directories and among the files of a run.
proof fn lemma_parts_are_apart(entries: Seq<EntryView>, recursive: bool)
    ensures
        directories_in_scope(entries, recursive).len() + files_in_scope(entries, recursive).len()
            <= entries.len(),
    decreases entries.len(),
{
    reveal(Seq::filter);
    if entries.len() > 0 {
        lemma_parts_are_apart(entries.drop_last(), recursive);
    }
}

/// A plan holds one step for each entry in scope, and none besides: every
/// directory in scope has its step in the directory phase, every file in
/// scope its step in the file phase, a skip where it is excluded. Each step
/// advances the progress count by one, so the count ends at the number of
/// entries in scope.
pub proof fn lemma_one_step_for_each_entry(
    options: CopyOptionsView,
    entries: Seq<EntryView>,
    mode: ExecutionMode,
)
    ensures
        plan_of(options, entries, mode).directories.len() == directories_in_scope(
            entries,
            options.recursive,
        ).len(),
        plan_of(options, entries, mode).files.len() == files_in_scope(
            entries,
            options.recursive,
        ).len(),
        plan_of(options, entries, mode).progress_total() <= entries.len(),
        forall|i: int|
            0 <= i < plan_of(options, entries, mode).files.len() ==> (#[trigger] plan_of(
                options,
                entries,
                mode,
            ).files[i]) == file_action(options, files_in_scope(entries, options.recursive)[i]),
        forall|i: int|
            0 <= i < plan_of(options, entries, mode).directories.len() ==> (#[trigger] plan_of(
                options,
                entries,
                mode,
            ).directories[i]) == directory_action(
                options,
                directories_in_scope(entries, options.recursive)[i],
            ),
{
    lemma_parts_are_apart(entries, options.recursive);
}

/// A directory is handled before anything is written into it.
///
/// Every directory among the entries that lies above a file in scope, the
/// source root apart, is in scope itself. Its step therefore belongs to the
/// directory phase, which is over before the file phase begins. The source
/// root has no step: its counterpart is the destination root.
pub proof fn lemma_directories_above_a_file_are_handled(
    options: CopyOptionsView,
    entries: Seq<EntryView>,
    mode: ExecutionMode,
    file: EntryView,
    dir: EntryView,
)
    requires
        entries.contains(dir),
        dir.kind == EntryKind::Directory,
        file.kind == EntryKind::File,
        in_scope(file, options.recursive),
        1 <= dir.depth() < file.depth(),
    ensures
        in_scope(dir, options.recursive),
        plan_of(options, entries, mode).directories.contains(directory_action(options, dir)),
{
    let dirs = directories_in_scope(entries, options.recursive);
    let i = choose|i: int| 0 <= i < entries.len() && entries[i] == dir;
    entries.lemma_filter_contains(directory_in_scope(options.recursive), i);
    let k = choose|k: int| 0 <= k < dirs.len() && dirs[k] == dir;
    assert(plan_of(options, entries, mode).directories[k] == directory_action(options, dir));
}

/// A dry run mirrors the run it stands for.
///
/// It plans the same steps for the same entries in the same order, each
/// turned into its simulation, and reports the same statistics. None of its
/// steps changes anything, and every line it logs opens with the mark of a
/// simulation.
pub proof fn lemma_dry_run_mirrors_run(
    options: CopyOptionsView,
    entries: Seq<EntryView>,
    mode: ExecutionMode,
)
    ensures
        ({
            let live = plan_of(with_dry_run(options, false), entries, mode);
            let dry = plan_of(with_dry_run(options, true), entries, mode);
            &&& dry.stats == live.stats
            &&& dry.directories == live.directories.map_values(to_simulated())
            &&& dry.files == live.files.map_values(to_simulated())
            &&& forall|i: int|
                0 <= i < dry.directories.len() ==> !(#[trigger] dry.directories[i]).mutates()
            &&& forall|i: int| 0 <= i < dry.files.len() ==> !(#[trigger] dry.files[i]).mutates()
            &&& forall|i: int|
                0 <= i < dry.directories.len() ==> (match (
                #[trigger] dry.directories[i]).log_line() {
                    Some(line) => simulated_mark().is_prefix_of(line),
                    None => false,
                })
            &&& forall|i: int|
                0 <= i < dry.files.len() ==> (match (#[trigger] dry.files[i]).log_line() {
                    Some(line) => simulated_mark().is_prefix_of(line),
                    None => dry.files[i].step is Skip,
                })
        }),
{
    let live = plan_of(with_dry_run(options, false), entries, mode);
    let dry = plan_of(with_dry_run(options, true), entries, mode);
    lemma_parts_hold_their_kind(entries, options.recursive);
    assert(dry.directories =~= live.directories.map_values(to_simulated()));
    assert(dry.files =~= live.files.map_values(to_simulated()));
}

} // verus!
