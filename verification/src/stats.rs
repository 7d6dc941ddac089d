//! Counters of what a run processed, and how partial counts combine.

use vstd::prelude::*;

verus! {

/// Counts as numbers without a bound: what [`CopyStats`] stands for.
pub struct Counts {
    /// Files that a copy was attempted or simulated for.
    pub files: nat,
    /// Directories that were created or simulated.
    pub dirs: nat,
}

impl Counts {
    /// Nothing counted.
    pub open spec fn zero() -> Counts {
        Counts { files: 0, dirs: 0 }
    }

    /// Both counts of `self` and `other`, added up.
    pub open spec fn plus(self, other: Counts) -> Counts {
        Counts { files: self.files + other.files, dirs: self.dirs + other.dirs }
    }

    /// Both counts fit the counters of a [`CopyStats`].
    pub open spec fn fits(self) -> bool {
        self.files <= u64::MAX && self.dirs <= u64::MAX
    }
}

/// The counters of one run, or of a part of it.
///
/// Excluded files are never counted; a file or directory whose processing
/// failed still is.
#[derive(Clone, Copy, Debug, PartialEq, Eq, Structural)]
pub struct CopyStats {
    /// Files that a copy was attempted or simulated for.
    pub files: u64,
    /// Directories that were created or simulated.
    pub dirs: u64,
}

impl View for CopyStats {
    type V = Counts;

    open spec fn view(&self) -> Counts {
        Counts { files: self.files as nat, dirs: self.dirs as nat }
    }
}

impl CopyStats {
    /// Counters that have counted nothing yet.
    pub fn new() -> (stats: CopyStats)
        ensures
            stats@ == Counts::zero(),
    {
        CopyStats { files: 0, dirs: 0 }
    }

    /// Combines the counters of two parts of a run into those of both.
    ///
    /// Gives nothing where a sum no longer fits its counter.
    pub fn merge(self, other: CopyStats) -> (sum: Option<CopyStats>)
        ensures
            sum is Some <==> self@.plus(other@).fits(),
            sum matches Some(s) ==> s@ == self@.plus(other@),
    {
        let files = match self.files.checked_add(other.files) {
            Some(n) => n,
            None => {
                return None;
            },
        };
        let dirs = match self.dirs.checked_add(other.dirs) {
            Some(n) => n,
            None => {
                return None;
            },
        };
        Some(CopyStats { files, dirs })
    }
}

/// Combining counts does not depend on which part comes first.
pub proof fn lemma_plus_commutes(a: Counts, b: Counts)
    ensures
        a.plus(b) == b.plus(a),
{
}

/// Combining counts does not depend on how the parts are grouped.
pub proof fn lemma_plus_associates(a: Counts, b: Counts, c: Counts)
    ensures
        a.plus(b).plus(c) == a.plus(b.plus(c)),
{
}

/// Counters that counted nothing change no sum.
pub proof fn lemma_plus_zero(a: Counts)
    ensures
        a.plus(Counts::zero()) == a,
        Counts::zero().plus(a) == a,
{
}

} // verus!
