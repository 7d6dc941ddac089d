//! The exclusion filter: which files a run leaves out because of their
//! extension.

use vstd::prelude::*;
use crate::entry::{Entry, EntryKind, EntryView};
use crate::path::{extension_of, extension_start, DOT};
use crate::text::{
    chars_of, same_ignoring_case, skip_leading, tails_same_ignoring_case, without_leading,
};

verus! {

/// The exclusion token `token` names the extension `ext`: they are the same
/// up to ASCII case once the token's leading dots are gone.
pub open spec fn names_extension(token: Seq<char>, ext: Seq<char>) -> bool {
    same_ignoring_case(without_leading(token, DOT), ext)
}

/// The path has an extension, and one of `excludes` names it.
pub open spec fn extension_excluded(path: Seq<char>, excludes: Seq<Seq<char>>) -> bool {
    match extension_of(path) {
        Some(ext) => exists|i: int|
            0 <= i < excludes.len() && names_extension(#[trigger] excludes[i], ext),
        None => false,
    }
}

/// The entry is left out of the copy: it is a file whose extension is
/// excluded. A directory never is.
pub open spec fn excluded(entry: EntryView, excludes: Seq<Seq<char>>) -> bool {
    entry.kind == EntryKind::File && extension_excluded(entry.path, excludes)
}

/// Whether one of `excludes` names the extension of `path`.
pub fn has_excluded_extension(path: &str, excludes: &[String]) -> (out: bool)
    ensures
        out == extension_excluded(path@, excludes.deep_view()),
{
    let p = chars_of(path);
    let start = match extension_start(&p) {
        Some(k) => k,
        None => {
            return false;
        },
    };
    let ghost ext = p@.skip(start as int);
    let ghost tokens = excludes.deep_view();
    let mut i: usize = 0;
    while i < excludes.len()
        invariant
            i <= excludes.len(),
            start <= p.len(),
            ext == p@.skip(start as int),
            extension_of(path@) == Some(ext),
            tokens == excludes.deep_view(),
            forall|j: int| 0 <= j < i ==> !names_extension(#[trigger] tokens[j], ext),
        decreases excludes.len() - i,
    {
        let token = chars_of(excludes[i].as_str());
        let from = skip_leading(&token, DOT);
        if tails_same_ignoring_case(&token, from, &p, start) {
            assert(names_extension(tokens[i as int], ext));
            return true;
        }
        i += 1;
    }
    false
}

/// Decides whether a run with these exclusions leaves `entry` out.
pub fn is_excluded(entry: &Entry, excludes: &[String]) -> (out: bool)
    ensures
        out == excluded(entry@, excludes.deep_view()),
{
    match entry.kind() {
        EntryKind::File => has_excluded_extension(entry.path(), excludes),
        EntryKind::Directory => false,
    }
}

} // verus!
