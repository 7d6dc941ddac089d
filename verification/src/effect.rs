//! A model of the destination, and of what a plan leaves there.
//!
//! The engine plans and its caller carries the plan out. This module says
//! what carrying it out amounts to when every step succeeds and the source
//! tree stays as it is: each step that changes anything leaves, at its
//! destination path, a directory or a file that takes after its source. A
//! later step at the same path replaces what an earlier one left.

use vstd::prelude::*;
use vstd::seq_lib::to_multiset_contains;
use crate::action::ActionView;
use crate::copy::{file_in_scope, files_in_scope, kept, plan_of, to_file_action, CopyPlanView};
use crate::entry::{EntryKind, EntryView};
use crate::guarantees::{lemma_dry_run_mirrors_run, lemma_parts_hold_their_kind, with_dry_run};
use crate::options::{CopyOptionsView, ExecutionMode};
use crate::path::{joined, lemma_relative_of_joined};

verus! {

/// What lies at a destination path.
pub enum Node {
    /// A directory with the permissions of the source directory at `from`.
    Directory { from: Seq<char> },
    /// A file with the bytes and the permissions of the source file at
    /// `from`.
    File { from: Seq<char> },
}

/// What a step that changes the destination leaves at its destination path.
pub open spec fn left_by(step: ActionView) -> Node {
    match step.kind {
        EntryKind::Directory => Node::Directory { from: step.source },
        EntryKind::File => Node::File { from: step.source },
    }
}

/// The destination after one step.
pub open spec fn after_step(tree: Map<Seq<char>, Node>, step: ActionView) -> Map<Seq<char>, Node> {
    if step.mutates() {
        tree.insert(step.destination, left_by(step))
    } else {
        tree
    }
}

/// The destination after a sequence of steps, carried out in order.
pub open spec fn after_steps(tree: Map<Seq<char>, Node>, steps: Seq<ActionView>) -> Map<
    Seq<char>,
    Node,
>
    decreases steps.len(),
{
    if steps.len() == 0 {
        tree
    } else {
        after_step(after_steps(tree, steps.drop_last()), steps.last())
    }
}

/// The destination after a run: its directory phase, then its file phase.
pub open spec fn after_run(tree: Map<Seq<char>, Node>, plan: CopyPlanView) -> Map<Seq<char>, Node> {
    after_steps(after_steps(tree, plan.directories), plan.files)
}

/// Some step of `steps` changes the destination at `path`.
pub open spec fn written(steps: Seq<ActionView>, path: Seq<char>) -> bool {
    exists|i: int| 0 <= i < steps.len() && writes_at(steps, i, path)
}

/// Step `i` of `steps` changes the destination at `path`.
pub open spec fn writes_at(steps: Seq<ActionView>, i: int, path: Seq<char>) -> bool {
    steps[i].mutates() && steps[i].destination == path
}

/// No two steps of `steps` change the destination at the same path.
pub open spec fn collision_free(steps: Seq<ActionView>) -> bool {
    forall|i: int, j: int|
        0 <= i < j < steps.len() && steps[i].mutates() && steps[j].mutates()
            ==> steps[i].destination != steps[j].destination
}

/// Carrying out two batches of steps one after the other is carrying out
/// their concatenation.
pub proof fn lemma_steps_in_turn(tree: Map<Seq<char>, Node>, a: Seq<ActionView>, b: Seq<ActionView>)
    ensures
        after_steps(tree, a + b) == after_steps(after_steps(tree, a), b),
    decreases b.len(),
{
    if b.len() == 0 {
        assert(a + b =~= a);
    } else {
        lemma_steps_in_turn(tree, a, b.drop_last());
        assert((a + b).drop_last() =~= a + b.drop_last());
    }
}

/// Steps change the destination only where they write, and where they
/// write, the last writer decides what is there.
pub proof fn lemma_last_writer_decides(tree: Map<Seq<char>, Node>, steps: Seq<ActionView>)
    ensures
        forall|path: Seq<char>|
            !written(steps, path) ==> (#[trigger] after_steps(tree, steps).contains_key(path)
                <==> tree.contains_key(path)) && (tree.contains_key(path) ==> after_steps(
                tree,
                steps,
            )[path] == tree[path]),
        forall|i: int|
            #![trigger steps[i]]
            0 <= i < steps.len() && steps[i].mutates() && (forall|j: int|
                i < j < steps.len() ==> !writes_at(steps, j, steps[i].destination))
                ==> after_steps(tree, steps).contains_key(steps[i].destination) && after_steps(
                tree,
                steps,
            )[steps[i].destination] == left_by(steps[i]),
    decreases steps.len(),
{
    if steps.len() > 0 {
        let before = steps.drop_last();
        let last = steps.last();
        lemma_last_writer_decides(tree, before);
        assert forall|path: Seq<char>| !written(steps, path) implies (#[trigger] after_steps(
            tree,
            steps,
        ).contains_key(path) <==> tree.contains_key(path)) && (tree.contains_key(path)
            ==> after_steps(tree, steps)[path] == tree[path]) by {
            assert(!writes_at(steps, steps.len() - 1, path));
            if written(before, path) {
                let i = choose|i: int| 0 <= i < before.len() && writes_at(before, i, path);
                assert(writes_at(steps, i, path));
            }
        }
        assert forall|i: int|
            #![trigger steps[i]]
            0 <= i < steps.len() && steps[i].mutates() && (forall|j: int|
                i < j < steps.len() ==> !writes_at(steps, j, steps[i].destination))
                implies after_steps(tree, steps).contains_key(steps[i].destination) && after_steps(
            tree,
            steps,
        )[steps[i].destination] == left_by(steps[i]) by {
            if i < steps.len() - 1 {
                assert(before[i] == steps[i]);
                assert(!writes_at(steps, steps.len() - 1, steps[i].destination));
                assert forall|j: int| i < j < before.len() implies !writes_at(
                    before,
                    j,
                    before[i].destination,
                ) by {
                    assert(!writes_at(steps, j, steps[i].destination));
                }
            }
        }
    }
}

/// Steps that change nothing leave the destination as it was.
pub proof fn lemma_idle_steps_change_nothing(tree: Map<Seq<char>, Node>, steps: Seq<ActionView>)
    requires
        forall|i: int| 0 <= i < steps.len() ==> !(#[trigger] steps[i]).mutates(),
    ensures
        after_steps(tree, steps) == tree,
    decreases steps.len(),
{
    if steps.len() > 0 {
        lemma_idle_steps_change_nothing(tree, steps.drop_last());
    }
}

/// What the steps leave does not depend on what was there before, and
/// everything else stays: the destination after the steps is the destination
/// before them, overlaid with what they leave on an empty one.
pub proof fn lemma_steps_overlay(tree: Map<Seq<char>, Node>, steps: Seq<ActionView>)
    ensures
        after_steps(tree, steps) == tree.union_prefer_right(after_steps(Map::empty(), steps)),
    decreases steps.len(),
{
    if steps.len() == 0 {
        assert(tree =~= tree.union_prefer_right(Map::empty()));
    } else {
        lemma_steps_overlay(tree, steps.drop_last());
        let fresh = after_steps(Map::empty(), steps.drop_last());
        assert(after_step(tree.union_prefer_right(fresh), steps.last())
            =~= tree.union_prefer_right(after_step(fresh, steps.last())));
    }
}

/// Carrying the same steps out a second time changes nothing.
pub proof fn lemma_again_changes_nothing(tree: Map<Seq<char>, Node>, steps: Seq<ActionView>)
    ensures
        after_steps(after_steps(tree, steps), steps) == after_steps(tree, steps),
{
    let fresh = after_steps(Map::empty(), steps);
    lemma_steps_overlay(tree, steps);
    lemma_steps_overlay(tree.union_prefer_right(fresh), steps);
    assert(tree.union_prefer_right(fresh).union_prefer_right(fresh) =~= tree.union_prefer_right(
        fresh,
    ));
}

/// A dry run leaves the destination as it was, whatever was there.
pub proof fn lemma_dry_run_changes_nothing(
    options: CopyOptionsView,
    entries: Seq<EntryView>,
    mode: ExecutionMode,
    tree: Map<Seq<char>, Node>,
)
    ensures
        after_run(tree, plan_of(with_dry_run(options, true), entries, mode)) == tree,
{
    let dry = plan_of(with_dry_run(options, true), entries, mode);
    lemma_dry_run_mirrors_run(options, entries, mode);
    lemma_idle_steps_change_nothing(tree, dry.directories);
    lemma_idle_steps_change_nothing(tree, dry.files);
}

/// A run is idempotent: on the destination that a first run left, a second
/// run of the same plan changes nothing. It reports the same statistics, as
/// these do not depend on the destination at all.
pub proof fn lemma_rerun_changes_nothing(
    options: CopyOptionsView,
    entries: Seq<EntryView>,
    mode: ExecutionMode,
    tree: Map<Seq<char>, Node>,
)
    ensures
        after_run(
            after_run(tree, plan_of(options, entries, mode)),
            plan_of(options, entries, mode),
        ) == after_run(tree, plan_of(options, entries, mode)),
{
    let plan = plan_of(options, entries, mode);
    let once = after_run(tree, plan);
    lemma_steps_in_turn(tree, plan.directories, plan.files);
    lemma_steps_in_turn(once, plan.directories, plan.files);
    lemma_again_changes_nothing(tree, plan.directories + plan.files);
}

/// Where steps write at a path, one of them is the last to do so.
proof fn lemma_some_writer_is_last(steps: Seq<ActionView>, path: Seq<char>)
    requires
        written(steps, path),
    ensures
        exists|i: int|
            0 <= i < steps.len() && writes_at(steps, i, path) && forall|j: int|
                i < j < steps.len() ==> !writes_at(steps, j, path),
    decreases steps.len(),
{
    let n = steps.len() - 1;
    if writes_at(steps, n, path) {
    } else {
        let before = steps.drop_last();
        let w = choose|i: int| 0 <= i < steps.len() && writes_at(steps, i, path);
        assert(writes_at(before, w, path));
        lemma_some_writer_is_last(before, path);
        let i = choose|i: int|
            0 <= i < before.len() && writes_at(before, i, path) && forall|j: int|
                i < j < before.len() ==> !writes_at(before, j, path);
        assert(writes_at(steps, i, path));
        assert forall|j: int| i < j < steps.len() implies !writes_at(steps, j, path) by {
            if j < n {
                assert(!writes_at(before, j, path));
            }
        }
    }
}

/// Where no two steps write at the same path, every step that writes is
/// the one that decides what lies at its destination.
pub proof fn lemma_each_step_leaves_its_mark(tree: Map<Seq<char>, Node>, steps: Seq<ActionView>)
    requires
        collision_free(steps),
    ensures
        forall|i: int|
            0 <= i < steps.len() && (#[trigger] steps[i]).mutates() ==> after_steps(
                tree,
                steps,
            ).contains_key(steps[i].destination) && after_steps(tree, steps)[steps[i].destination]
                == left_by(steps[i]),
{
    lemma_last_writer_decides(tree, steps);
}

/// Where no two steps write at the same path, the order in which they are
/// carried out does not matter: any sequence that holds the same steps, each
/// as often, leaves the same destination.
pub proof fn lemma_order_does_not_matter(
    tree: Map<Seq<char>, Node>,
    steps: Seq<ActionView>,
    done: Seq<ActionView>,
)
    requires
        collision_free(steps),
        done.to_multiset() == steps.to_multiset(),
    ensures
        after_steps(tree, done) == after_steps(tree, steps),
{
    lemma_last_writer_decides(tree, steps);
    lemma_last_writer_decides(tree, done);
    assert forall|path: Seq<char>|
        (#[trigger] after_steps(tree, done).contains_key(path) <==> after_steps(
            tree,
            steps,
        ).contains_key(path)) && (after_steps(tree, steps).contains_key(path) ==> after_steps(
            tree,
            done,
        )[path] == after_steps(tree, steps)[path]) by {
        if written(done, path) {
            lemma_some_writer_is_last(done, path);
            let d = choose|i: int|
                0 <= i < done.len() && writes_at(done, i, path) && forall|j: int|
                    i < j < done.len() ==> !writes_at(done, j, path);
            assert(done.contains(done[d]));
            to_multiset_contains(done, done[d]);
            to_multiset_contains(steps, done[d]);
            let s = choose|i: int| 0 <= i < steps.len() && steps[i] == done[d];
            assert(writes_at(steps, s, path));
            assert(steps[s].destination == path);
            assert(done[d].destination == path);
        } else if written(steps, path) {
            let s = choose|i: int| 0 <= i < steps.len() && writes_at(steps, i, path);
            assert(steps.contains(steps[s]));
            to_multiset_contains(steps, steps[s]);
            to_multiset_contains(done, steps[s]);
            let d = choose|i: int| 0 <= i < done.len() && done[i] == steps[s];
            assert(writes_at(done, d, path));
        }
    }
    assert(after_steps(tree, done) =~= after_steps(tree, steps));
}

/// After a run that is no dry run, the copy of every file that the run
/// copied lies at its destination, with the bytes and the permissions of its
/// source, provided that no two files go to the same destination.
pub proof fn lemma_each_copy_takes_after_its_source(
    options: CopyOptionsView,
    entries: Seq<EntryView>,
    mode: ExecutionMode,
    tree: Map<Seq<char>, Node>,
)
    requires
        collision_free(plan_of(options, entries, mode).files),
    ensures
        forall|i: int|
            0 <= i < plan_of(options, entries, mode).files.len() && (#[trigger] plan_of(
                options,
                entries,
                mode,
            ).files[i]).mutates() ==> {
                let step = plan_of(options, entries, mode).files[i];
                let after = after_run(tree, plan_of(options, entries, mode));
                after.contains_key(step.destination) && after[step.destination] == (Node::File {
                    from: step.source,
                })
            },
{
    let plan = plan_of(options, entries, mode);
    lemma_parts_hold_their_kind(entries, options.recursive);
    lemma_each_step_leaves_its_mark(after_steps(tree, plan.directories), plan.files);
}

/// No two entries of `entries` have the same relative path.
pub open spec fn distinct_paths(entries: Seq<EntryView>) -> bool {
    forall|i: int, j: int|
        0 <= i < j < entries.len() ==> (#[trigger] entries[i]).relative != (
        #[trigger] entries[j]).relative
}

/// A selection from entries with distinct relative paths has distinct
/// relative paths.
proof fn lemma_selection_keeps_paths_distinct(
    entries: Seq<EntryView>,
    pick: spec_fn(EntryView) -> bool,
)
    requires
        distinct_paths(entries),
    ensures
        distinct_paths(entries.filter(pick)),
    decreases entries.len(),
{
    reveal(Seq::filter);
    if entries.len() > 0 {
        let before = entries.drop_last();
        let last = entries.last();
        assert(distinct_paths(before)) by {
            assert forall|i: int, j: int| 0 <= i < j < before.len() implies (
            #[trigger] before[i]).relative != (#[trigger] before[j]).relative by {
                assert(before[i] == entries[i] && before[j] == entries[j]);
            }
        }
        lemma_selection_keeps_paths_distinct(before, pick);
        if pick(last) {
            let picked = before.filter(pick);
            assert forall|i: int| 0 <= i < picked.len() implies (#[trigger] picked[i]).relative
                != last.relative by {
                before.lemma_filter_contains_rev(pick, picked[i]);
                let k = choose|k: int| 0 <= k < before.len() && before[k] == picked[i];
                assert(entries[k] == before[k]);
                assert(entries[entries.len() - 1] == last);
            }
        }
    }
}

/// The entries of a tree never collide: where every entry is well formed and
/// no two have the same relative path, no two file steps of the plan write
/// at the same destination.
pub proof fn lemma_a_tree_is_collision_free(
    options: CopyOptionsView,
    entries: Seq<EntryView>,
    mode: ExecutionMode,
)
    requires
        distinct_paths(entries),
        forall|i: int| 0 <= i < entries.len() ==> (#[trigger] entries[i]).well_formed(),
    ensures
        collision_free(plan_of(options, entries, mode).files),
{
    let files = files_in_scope(entries, options.recursive);
    let steps = plan_of(options, entries, mode).files;
    lemma_selection_keeps_paths_distinct(entries, file_in_scope(options.recursive));
    assert forall|i: int, j: int|
        0 <= i < j < steps.len() && steps[i].mutates() && steps[j].mutates()
            implies steps[i].destination != steps[j].destination by {
        assert(steps[i] == to_file_action(options)(files[i]));
        assert(steps[j] == to_file_action(options)(files[j]));
        entries.lemma_filter_contains_rev(file_in_scope(options.recursive), files[i]);
        entries.lemma_filter_contains_rev(file_in_scope(options.recursive), files[j]);
        lemma_relative_of_joined(options.destination, files[i].relative);
        lemma_relative_of_joined(options.destination, files[j].relative);
    }
}

/// What a sequence of directory steps leaves on an empty destination is
/// directories.
proof fn lemma_directories_leave_directories(steps: Seq<ActionView>)
    requires
        forall|i: int| 0 <= i < steps.len() ==> (#[trigger] steps[i]).kind == EntryKind::Directory,
    ensures
        forall|path: Seq<char>|
            #[trigger] after_steps(Map::empty(), steps).contains_key(path) ==> after_steps(
                Map::empty(),
                steps,
            )[path] is Directory,
    decreases steps.len(),
{
    if steps.len() > 0 {
        lemma_directories_leave_directories(steps.drop_last());
    }
}

/// After a run that is no dry run and began on an empty destination, the
/// files at the destination are exactly the files in scope that no exclusion
/// names, each at its relative path below the destination root.
pub proof fn lemma_destination_holds_the_kept_files(
    options: CopyOptionsView,
    entries: Seq<EntryView>,
    mode: ExecutionMode,
)
    requires
        !options.dry_run,
    ensures
        forall|path: Seq<char>|
            (#[trigger] after_run(Map::empty(), plan_of(options, entries, mode)).contains_key(path)
                && after_run(Map::empty(), plan_of(options, entries, mode))[path] is File) <==> (
            exists|i: int|
                0 <= i < files_in_scope(entries, options.recursive).len() && kept(options.excludes)(
                    #[trigger] files_in_scope(entries, options.recursive)[i],
                ) && joined(
                    options.destination,
                    files_in_scope(entries, options.recursive)[i].relative,
                ) == path),
{
    let plan = plan_of(options, entries, mode);
    let files = files_in_scope(entries, options.recursive);
    let keep = kept(options.excludes);
    let ready = after_steps(Map::empty(), plan.directories);
    let after = after_run(Map::empty(), plan);
    lemma_parts_hold_their_kind(entries, options.recursive);
    lemma_directories_leave_directories(plan.directories);
    lemma_last_writer_decides(ready, plan.files);
    assert forall|path: Seq<char>|
        (#[trigger] after.contains_key(path) && after[path] is File) <==> (exists|i: int|
            0 <= i < files.len() && keep(#[trigger] files[i]) && joined(
                options.destination,
                files[i].relative,
            ) == path) by {
        if written(plan.files, path) {
            lemma_some_writer_is_last(plan.files, path);
            let w = choose|i: int|
                0 <= i < plan.files.len() && writes_at(plan.files, i, path) && forall|j: int|
                    i < j < plan.files.len() ==> !writes_at(plan.files, j, path);
            assert(plan.files[w] == to_file_action(options)(files[w]));
            assert(keep(files[w]));
            assert(after[path] == left_by(plan.files[w]));
        } else {
            assert forall|i: int| 0 <= i < files.len() && keep(#[trigger] files[i]) implies joined(
                options.destination,
                files[i].relative,
            ) != path by {
                assert(plan.files[i] == to_file_action(options)(files[i]));
                assert(!writes_at(plan.files, i, path));
            }
        }
    }
}

} // verus!
