//! Paths as text: names separated by `/`.
//!
//! A source root, a destination root and the paths below them are handled as
//! plain strings. Joining a root with a relative path and stripping a root
//! from a path are inverse to each other, which is what lets a source tree be
//! replayed below another root.

use vstd::prelude::*;
use vstd::string::*;
use crate::text::{chars_of, find_last, last_index_of, lemma_last_index_of, occurrences};

verus! {

/// The character that separates the names of a path.
pub const SEPARATOR: char = '/';

/// The character that separates a file name from its extension.
pub const DOT: char = '.';

/// A path that does not start at a root of its own: it is empty or begins
/// with a name.
pub open spec fn is_relative(path: Seq<char>) -> bool {
    path.len() == 0 || path[0] != SEPARATOR
}

/// `base` extended by the relative path `rel`: the two joined by exactly one
/// separator, and `base` itself where `rel` is empty.
pub open spec fn joined(base: Seq<char>, rel: Seq<char>) -> Seq<char> {
    if rel.len() == 0 {
        base
    } else if base.len() == 0 || base.last() == SEPARATOR {
        base + rel
    } else {
        base + seq![SEPARATOR] + rel
    }
}

/// The path that leads from `root` to `path`, where `path` lies at or below
/// `root`: the relative path which, joined to `root`, gives `path` back.
pub open spec fn relative_to(root: Seq<char>, path: Seq<char>) -> Option<Seq<char>> {
    let cut: int = if root.len() == 0 || root.last() == SEPARATOR {
        root.len() as int
    } else {
        root.len() as int + 1
    };
    if path == root {
        Some(Seq::empty())
    } else if cut < path.len() && joined(root, path.skip(cut)) == path && path[cut] != SEPARATOR {
        Some(path.skip(cut))
    } else {
        None
    }
}

/// The last name of a path: what follows its last separator, or all of it.
pub open spec fn file_name_of(path: Seq<char>) -> Seq<char> {
    match last_index_of(path, SEPARATOR) {
        Some(i) => path.skip(i + 1),
        None => path,
    }
}

/// The extension of a path: what follows the last dot of its file name. A
/// file name without a dot has none.
pub open spec fn extension_of(path: Seq<char>) -> Option<Seq<char>> {
    let name = file_name_of(path);
    match last_index_of(name, DOT) {
        Some(i) => Some(name.skip(i + 1)),
        None => None,
    }
}

/// The number of names in a relative path: 0 for the root itself, 1 for what
/// lies directly in it.
pub open spec fn depth_of(rel: Seq<char>) -> nat {
    if rel.len() == 0 {
        0
    } else {
        occurrences(rel, SEPARATOR) + 1
    }
}

/// Stripping a root from what was joined to it gives the relative path back.
pub proof fn lemma_relative_of_joined(root: Seq<char>, rel: Seq<char>)
    requires
        is_relative(rel),
    ensures
        relative_to(root, joined(root, rel)) == Some(rel),
{
    let path = joined(root, rel);
    if rel.len() == 0 {
        assert(rel =~= Seq::empty());
    } else if root.len() == 0 || root.last() == SEPARATOR {
        assert(path.skip(root.len() as int) =~= rel);
    } else {
        assert(path.skip(root.len() as int + 1) =~= rel);
    }
}

/// Joining a root with the relative path that leads from it to `path` gives
/// `path` back, and that relative path is the tail of `path`.
pub proof fn lemma_joined_of_relative(root: Seq<char>, path: Seq<char>)
    requires
        relative_to(root, path) is Some,
    ensures
        is_relative(relative_to(root, path)->0),
        joined(root, relative_to(root, path)->0) == path,
        relative_to(root, path)->0.len() <= path.len(),
        path.skip(path.len() - relative_to(root, path)->0.len()) == relative_to(root, path)->0,
{
    let rel = relative_to(root, path)->0;
    if path == root {
        assert(path.skip(path.len() as int) =~= rel);
    }
}

/// Joins `rel` to `base`.
pub fn join(base: &str, rel: &str) -> (path: String)
    ensures
        path@ == joined(base@, rel@),
{
    let b = chars_of(base);
    let mut path = String::from_str(base);
    if rel.unicode_len() == 0 {
        return path;
    }
    if b.len() > 0 && b[b.len() - 1] != SEPARATOR {
        proof {
            reveal_strlit("/");
        }
        path.append("/");
        assert(path@ =~= base@ + seq![SEPARATOR]);
    }
    path.append(rel);
    path
}

/// Strips `root` from the front of `path`.
///
/// Gives the relative path that leads from `root` to `path`, and nothing
/// where `path` does not lie at or below `root`.
#[verifier::loop_isolation(false)]
pub fn strip_root(root: &str, path: &str) -> (rel: Option<String>)
    ensures
        rel is Some <==> relative_to(root@, path@) is Some,
        rel matches Some(r) ==> Some(r@) == relative_to(root@, path@),
{
    let r = chars_of(root);
    let p = chars_of(path);
    if same_text(&r, &p) {
        return Some(String::new());
    }
    if p.len() <= r.len() {
        return None;
    }
    let cut: usize = if r.len() == 0 || r[r.len() - 1] == SEPARATOR {
        r.len()
    } else {
        r.len() + 1
    };
    if cut >= p.len() || p[cut] == SEPARATOR {
        return None;
    }
    // `path` must open with `root`, and with a separator where `root` brings none.
    let mut i: usize = 0;
    while i < r.len()
        invariant
            i <= r.len() <= cut < p.len(),
            forall|j: int| 0 <= j < i ==> r@[j] == p@[j],
        decreases r.len() - i,
    {
        if r[i] != p[i] {
            assert(joined(r@, p@.skip(cut as int))[i as int] == r@[i as int]);
            return None;
        }
        i += 1;
    }
    if cut > r.len() && p[r.len()] != SEPARATOR {
        assert(joined(r@, p@.skip(cut as int))[r.len() as int] == SEPARATOR);
        return None;
    }
    assert(joined(r@, p@.skip(cut as int)) =~= p@);
    let tail = path.substring_char(cut, p.len());
    assert(tail@ =~= p@.skip(cut as int));
    Some(String::from_str(tail))
}

/// Whether two texts hold the same characters.
pub(crate) fn same_text(a: &Vec<char>, b: &Vec<char>) -> (same: bool)
    ensures
        same == (a@ == b@),
{
    if a.len() != b.len() {
        return false;
    }
    let mut i: usize = 0;
    while i < a.len()
        invariant
            i <= a.len(),
            a.len() == b.len(),
            forall|j: int| 0 <= j < i ==> a@[j] == b@[j],
        decreases a.len() - i,
    {
        if a[i] != b[i] {
            return false;
        }
        i += 1;
    }
    assert(a@ =~= b@);
    true
}

/// The position at which the file name of `path` begins.
pub(crate) fn file_name_start(path: &Vec<char>) -> (start: usize)
    ensures
        start <= path.len(),
        path@.skip(start as int) == file_name_of(path@),
{
    match find_last(path, SEPARATOR) {
        Some(i) => i + 1,
        None => {
            assert(path@.skip(0) =~= path@);
            0
        },
    }
}

/// The position at which the extension of `path` begins, if it has one.
pub(crate) fn extension_start(path: &Vec<char>) -> (start: Option<usize>)
    ensures
        start matches Some(k) ==> k <= path.len() && extension_of(path@) == Some(
            path@.skip(k as int),
        ),
        start is None ==> extension_of(path@) is None,
{
    let from = file_name_start(path);
    let ghost name = path@.skip(from as int);
    let mut i: usize = path.len();
    while i > from
        invariant
            from <= i <= path.len(),
            name == path@.skip(from as int),
            name == file_name_of(path@),
            forall|j: int| i - from <= j < name.len() ==> name[j] != DOT,
        decreases i,
    {
        i -= 1;
        if path[i] == DOT {
            proof {
                lemma_last_index_of(name, DOT, i - from);
                assert(name.skip(i - from + 1) =~= path@.skip(i + 1));
            }
            return Some(i + 1);
        }
    }
    None
}

/// The last name of `path`.
pub fn file_name(path: &str) -> (name: String)
    ensures
        name@ == file_name_of(path@),
{
    let p = chars_of(path);
    let start = file_name_start(&p);
    let tail = path.substring_char(start, p.len());
    assert(tail@ =~= p@.skip(start as int));
    String::from_str(tail)
}

/// The extension of `path`, if its file name has one.
pub fn extension(path: &str) -> (ext: Option<String>)
    ensures
        ext is Some <==> extension_of(path@) is Some,
        ext matches Some(e) ==> Some(e@) == extension_of(path@),
{
    let p = chars_of(path);
    match extension_start(&p) {
        Some(k) => {
            let tail = path.substring_char(k, p.len());
            assert(tail@ =~= p@.skip(k as int));
            Some(String::from_str(tail))
        },
        None => None,
    }
}

/// The number of names in the relative path `rel`, as far as a `usize` can
/// count them.
pub fn depth(rel: &str) -> (d: usize)
    ensures
        d == if depth_of(rel@) <= usize::MAX { depth_of(rel@) } else { usize::MAX as nat },
{
    let r = chars_of(rel);
    if r.len() == 0 {
        return 0;
    }
    let mut count: usize = 0;
    let mut i: usize = 0;
    while i < r.len()
        invariant
            i <= r.len(),
            count == occurrences(r@.take(i as int), SEPARATOR),
            count <= i,
        decreases r.len() - i,
    {
        assert(r@.take(i + 1).drop_last() =~= r@.take(i as int));
        if r[i] == SEPARATOR {
            count += 1;
        }
        i += 1;
    }
    assert(r@.take(r.len() as int) =~= r@);
    if count == usize::MAX {
        usize::MAX
    } else {
        count + 1
    }
}

} // verus!
