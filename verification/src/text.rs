//! Character-level helpers on which the path and exclusion rules rest.

use vstd::prelude::*;

verus! {

/// `c` with an ASCII upper-case letter replaced by its lower-case form; every
/// other character stands for itself.
pub open spec fn folded(c: char) -> char {
    if 'A' <= c && c <= 'Z' {
        ((c as u8) + 32) as char
    } else {
        c
    }
}

/// Two texts are the same up to the case of their ASCII letters.
pub open spec fn same_ignoring_case(a: Seq<char>, b: Seq<char>) -> bool {
    &&& a.len() == b.len()
    &&& forall|i: int| 0 <= i < a.len() ==> folded(#[trigger] a[i]) == folded(b[i])
}

/// `s` without its leading run of the character `c`.
pub open spec fn without_leading(s: Seq<char>, c: char) -> Seq<char>
    decreases s.len(),
{
    if s.len() > 0 && s[0] == c {
        without_leading(s.drop_first(), c)
    } else {
        s
    }
}

/// The position of the last `c` in `s`, if `s` holds one.
pub open spec fn last_index_of(s: Seq<char>, c: char) -> Option<int> {
    if exists|i: int| 0 <= i < s.len() && s[i] == c {
        Some(choose|i: int| is_last_index_of(s, c, i))
    } else {
        None
    }
}

/// `i` is the position of the last `c` in `s`.
pub open spec fn is_last_index_of(s: Seq<char>, c: char, i: int) -> bool {
    &&& 0 <= i < s.len()
    &&& s[i] == c
    &&& forall|j: int| i < j < s.len() ==> s[j] != c
}

/// How often `c` occurs in `s`.
pub open spec fn occurrences(s: Seq<char>, c: char) -> nat
    decreases s.len(),
{
    if s.len() == 0 {
        0
    } else {
        occurrences(s.drop_last(), c) + if s.last() == c { 1nat } else { 0nat }
    }
}

/// Removing a leading run of `c` leaves the text from the first other
/// character on.
pub proof fn lemma_without_leading(s: Seq<char>, c: char, k: int)
    requires
        0 <= k <= s.len(),
        forall|i: int| 0 <= i < k ==> s[i] == c,
        k < s.len() ==> s[k] != c,
    ensures
        without_leading(s, c) == s.skip(k),
    decreases k,
{
    if k == 0 {
        assert(s.skip(0) =~= s);
    } else {
        lemma_without_leading(s.drop_first(), c, k - 1);
        assert(s.drop_first().skip(k - 1) =~= s.skip(k));
    }
}

/// The last position of a character is unique, so naming it fixes
/// `last_index_of`.
pub proof fn lemma_last_index_of(s: Seq<char>, c: char, i: int)
    requires
        is_last_index_of(s, c, i),
    ensures
        last_index_of(s, c) == Some(i),
{
    let j = choose|j: int| is_last_index_of(s, c, j);
    assert(is_last_index_of(s, c, j));
    if j < i {
        assert(s[i] != c);
    } else if i < j {
        assert(s[j] != c);
    }
}

/// The characters of `s`, in order, as an indexable vector.
pub(crate) fn chars_of(s: &str) -> (v: Vec<char>)
    ensures
        v@ == s@,
{
    let mut v: Vec<char> = Vec::new();
    let it = s.chars();
    for c in iter: it
        invariant
            v@ == iter.seq().take(iter.index() as int),
    {
        v.push(c);
    }
    v
}

/// Folds one character to lower case.
pub(crate) fn fold(c: char) -> (r: char)
    ensures
        r == folded(c),
{
    if c >= 'A' && c <= 'Z' {
        ((c as u8) + 32) as char
    } else {
        c
    }
}

/// Compares the tails of two texts without regard to ASCII case.
pub(crate) fn tails_same_ignoring_case(
    a: &Vec<char>,
    a_from: usize,
    b: &Vec<char>,
    b_from: usize,
) -> (same: bool)
    requires
        a_from <= a.len(),
        b_from <= b.len(),
    ensures
        same == same_ignoring_case(a@.skip(a_from as int), b@.skip(b_from as int)),
{
    let n: usize = a.len() - a_from;
    if b.len() - b_from != n {
        return false;
    }
    let ghost x = a@.skip(a_from as int);
    let ghost y = b@.skip(b_from as int);
    let mut i: usize = 0;
    while i < n
        invariant
            i <= n,
            n == a.len() - a_from,
            n == b.len() - b_from,
            x == a@.skip(a_from as int),
            y == b@.skip(b_from as int),
            forall|j: int| 0 <= j < i ==> folded(#[trigger] x[j]) == folded(y[j]),
        decreases n - i,
    {
        if fold(a[a_from + i]) != fold(b[b_from + i]) {
            assert(folded(x[i as int]) != folded(y[i as int]));
            return false;
        }
        i += 1;
    }
    true
}

/// The position of the first character of `s` that is not `c`, or the
/// length of `s` where it holds nothing else.
pub(crate) fn skip_leading(s: &Vec<char>, c: char) -> (k: usize)
    ensures
        k <= s.len(),
        s@.skip(k as int) == without_leading(s@, c),
{
    let mut k: usize = 0;
    while k < s.len() && s[k] == c
        invariant
            k <= s.len(),
            forall|i: int| 0 <= i < k ==> s@[i] == c,
        decreases s.len() - k,
    {
        k += 1;
    }
    proof {
        lemma_without_leading(s@, c, k as int);
    }
    k
}

/// Finds the last `c` in `s`.
pub(crate) fn find_last(s: &Vec<char>, c: char) -> (found: Option<usize>)
    ensures
        found matches Some(i) ==> i < s.len() && last_index_of(s@, c) == Some(i as int),
        found is None ==> last_index_of(s@, c) is None,
{
    let mut i: usize = s.len();
    while i > 0
        invariant
            i <= s.len(),
            forall|j: int| i <= j < s.len() ==> s@[j] != c,
        decreases i,
    {
        i -= 1;
        if s[i] == c {
            proof {
                lemma_last_index_of(s@, c, i as int);
            }
            return Some(i);
        }
    }
    None
}

} // verus!
