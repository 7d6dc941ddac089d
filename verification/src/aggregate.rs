//! The statistics aggregator: what the steps that were carried out add up to.
//!
//! Each step adds its own small count, and counts combine by addition. The
//! total therefore depends neither on the order in which steps are carried
//! out nor on how they are shared out and their partial totals merged, which
//! is what makes counting safe when files are handed out to workers.

use vstd::prelude::*;
use vstd::seq_lib::{to_multiset_contains, to_multiset_len, to_multiset_remove};
use crate::action::{Action, ActionView};
use crate::stats::{CopyStats, Counts};

verus! {

/// What a sequence of steps adds to the counters, taken together.
pub open spec fn tally_of(steps: Seq<ActionView>) -> Counts
    decreases steps.len(),
{
    if steps.len() == 0 {
        Counts::zero()
    } else {
        tally_of(steps.drop_last()).plus(steps.last().counts())
    }
}

/// The tally of two batches of steps is the sum of their tallies: partial
/// counts that are merged when the batches are done lose and add nothing.
pub proof fn lemma_tally_splits(a: Seq<ActionView>, b: Seq<ActionView>)
    ensures
        tally_of(a + b) == tally_of(a).plus(tally_of(b)),
    decreases b.len(),
{
    if b.len() == 0 {
        assert(a + b =~= a);
    } else {
        lemma_tally_splits(a, b.drop_last());
        assert((a + b).drop_last() =~= a + b.drop_last());
    }
}

/// Leaving one step out lowers the tally by what that step counts.
pub proof fn lemma_tally_without(steps: Seq<ActionView>, i: int)
    requires
        0 <= i < steps.len(),
    ensures
        tally_of(steps) == tally_of(steps.remove(i)).plus(steps[i].counts()),
{
    let head = steps.subrange(0, i);
    let tail = steps.subrange(i + 1, steps.len() as int);
    assert(steps =~= head.push(steps[i]) + tail);
    assert(head.push(steps[i]).drop_last() =~= head);
    lemma_tally_splits(head.push(steps[i]), tail);
    lemma_tally_splits(head, tail);
}

/// The tally does not depend on the order of the steps: two sequences that
/// hold the same steps, each as often as the other, count the same.
pub proof fn lemma_tally_any_order(a: Seq<ActionView>, b: Seq<ActionView>)
    requires
        a.to_multiset() == b.to_multiset(),
    ensures
        tally_of(a) == tally_of(b),
    decreases a.len(),
{
    to_multiset_len(a);
    to_multiset_len(b);
    if a.len() > 0 {
        let last = a.last();
        let rest = a.drop_last();
        assert(a.contains(last));
        to_multiset_contains(a, last);
        to_multiset_contains(b, last);
        let i = choose|i: int| 0 <= i < b.len() && b[i] == last;
        assert(rest =~= a.remove(a.len() - 1));
        to_multiset_remove(a, a.len() - 1);
        to_multiset_remove(b, i);
        lemma_tally_any_order(rest, b.remove(i));
        lemma_tally_without(b, i);
    }
}

/// Adds up what `steps` count.
pub fn tally(steps: &[Action]) -> (stats: CopyStats)
    ensures
        stats@ == tally_of(steps.deep_view()),
{
    let ghost all = steps.deep_view();
    let mut files: usize = 0;
    let mut dirs: usize = 0;
    let mut i: usize = 0;
    while i < steps.len()
        invariant
            i <= steps.len(),
            all == steps.deep_view(),
            files + dirs <= i,
            (Counts { files: files as nat, dirs: dirs as nat }) == tally_of(all.take(i as int)),
        decreases steps.len() - i,
    {
        assert(all.take(i + 1).drop_last() =~= all.take(i as int));
        let one = steps[i].contribution();
        files += one.files as usize;
        dirs += one.dirs as usize;
        i += 1;
    }
    assert(all.take(steps.len() as int) =~= all);
    CopyStats { files: files as u64, dirs: dirs as u64 }
}

} // verus!
