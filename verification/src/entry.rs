//! What a traversal of the source tree hands to the engine.

use vstd::prelude::*;
use crate::path::{depth, depth_of, is_relative, lemma_joined_of_relative, relative_to, strip_root};

verus! {

/// Whether an entry is a file or a directory.
#[derive(Clone, Copy, Debug, PartialEq, Eq, Structural)]
pub enum EntryKind {
    File,
    Directory,
}

/// The mathematical content of an [`Entry`].
pub struct EntryView {
    /// The path under which the traversal found the entry.
    pub path: Seq<char>,
    /// The path that leads from the source root to the entry.
    pub relative: Seq<char>,
    /// File or directory.
    pub kind: EntryKind,
}

impl EntryView {
    /// The relative path is a strictly shorter tail of the path, and starts
    /// with a name.
    pub open spec fn well_formed(self) -> bool {
        &&& is_relative(self.relative)
        &&& self.relative.len() < self.path.len()
        &&& self.path.skip(self.path.len() - self.relative.len()) == self.relative
    }

    /// The number of names between the source root and the entry.
    pub open spec fn depth(self) -> nat {
        depth_of(self.relative)
    }
}

/// One result of a traversal: a path at or below the source root, what lies
/// there, and the same path seen from the root.
#[derive(Debug, PartialEq, Eq)]
pub struct Entry {
    path: String,
    relative: String,
    kind: EntryKind,
}

impl View for Entry {
    type V = EntryView;

    closed spec fn view(&self) -> EntryView {
        EntryView { path: self.path@, relative: self.relative@, kind: self.kind }
    }
}

impl Clone for Entry {
    fn clone(&self) -> (copy: Entry)
        ensures
            copy@ == self@,
    {
        proof {
            use_type_invariant(self);
        }
        Entry { path: self.path.clone(), relative: self.relative.clone(), kind: self.kind }
    }
}

impl DeepView for Entry {
    type V = EntryView;

    open spec fn deep_view(&self) -> EntryView {
        self@
    }
}

impl Entry {
    #[verifier::type_invariant]
    spec fn holds_together(self) -> bool {
        self@.well_formed()
    }

    /// Records that the traversal of `root` found `path`.
    ///
    /// The entry exists where `root` is not empty and `path` lies at or below
    /// it; its relative path is then `path` with `root` stripped.
    pub fn new(root: &str, path: &str, kind: EntryKind) -> (entry: Option<Entry>)
        ensures
            entry is Some <==> root@.len() > 0 && relative_to(root@, path@) is Some,
            entry matches Some(e) ==> e@ == (EntryView {
                path: path@,
                relative: relative_to(root@, path@)->0,
                kind,
            }) && e@.well_formed(),
    {
        if root.unicode_len() == 0 {
            return None;
        }
        match strip_root(root, path) {
            Some(relative) => {
                proof {
                    lemma_joined_of_relative(root@, path@);
                }
                Some(Entry { path: path.to_owned(), relative, kind })
            },
            None => None,
        }
    }

    /// The path under which the traversal found the entry.
    pub fn path(&self) -> (p: &str)
        ensures
            p@ == self@.path,
    {
        self.path.as_str()
    }

    /// The path that leads from the source root to the entry.
    pub fn relative(&self) -> (r: &str)
        ensures
            r@ == self@.relative,
            self@.well_formed(),
    {
        proof {
            use_type_invariant(self);
        }
        self.relative.as_str()
    }

    /// File or directory.
    pub fn kind(&self) -> (k: EntryKind)
        ensures
            k == self@.kind,
    {
        self.kind
    }

    /// Whether the entry is a directory.
    pub fn is_dir(&self) -> (d: bool)
        ensures
            d == (self@.kind == EntryKind::Directory),
    {
        self.kind == EntryKind::Directory
    }

    /// The number of names between the source root and the entry, as far as a
    /// `usize` can count them.
    pub fn depth(&self) -> (d: usize)
        ensures
            d == if self@.depth() <= usize::MAX { self@.depth() } else { usize::MAX as nat },
    {
        depth(self.relative.as_str())
    }
}

} // verus!
