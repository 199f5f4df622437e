//! Canonical immutable objects.

use vstd::prelude::*;

verus! {

/// Canonical immutable object category stored by the Engine.
#[derive(Clone, Copy, Debug, PartialEq, Eq, Structural, PartialOrd, Ord, Hash)]
pub enum CanonicalObjectKind {
    /// Domain-separated regular-file contents.
    File,
    /// Domain-separated symbolic-link target text.
    Symlink,
    /// Domain-separated canonical directory entries.
    Tree,
}

impl CanonicalObjectKind {
    /// The kind in words.
    pub open spec fn words(self) -> Seq<char> {
        match self {
            CanonicalObjectKind::File => "file"@,
            CanonicalObjectKind::Symlink => "symlink"@,
            CanonicalObjectKind::Tree => "tree"@,
        }
    }

    /// Returns the kind in words.
    pub fn name(self) -> (text: &'static str)
        ensures
            text@ == self.words(),
    {
        match self {
            CanonicalObjectKind::File => "file",
            CanonicalObjectKind::Symlink => "symlink",
            CanonicalObjectKind::Tree => "tree",
        }
    }
}

/// Durable outcome of publishing one immutable canonical object.
#[derive(Clone, Copy, Debug, PartialEq, Eq, Structural)]
pub enum CanonicalObjectPublication {
    /// This operation linked the canonical digest name.
    Published,
    /// A pre-existing object was fully verified and reused.
    Reused,
}

} // verus!
