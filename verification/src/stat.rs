//! Observations of file-system entries.

use vstd::prelude::*;

verus! {

/// What the kernel reports of a file-system entry.
#[derive(Clone, Copy, Debug, PartialEq, Eq, Structural)]
pub struct FileStat {
    pub dev: u64,
    pub ino: u64,
    pub mode: u32,
    pub uid: u32,
    pub gid: u32,
    pub nlink: u64,
    pub size: i64,
    pub mtime: i64,
    pub mtime_nsec: i64,
    pub ctime: i64,
    pub ctime_nsec: i64,
}

/// The kinds of entries that matter here.
#[derive(Clone, Copy, Debug, PartialEq, Eq, Structural)]
pub enum EntryKind {
    Directory,
    Regular,
    Symlink,
    Other,
}

/// The bits of a mode that tell the kind of an entry.
pub const KIND_MASK: u32 = 0o170000;

/// The permission and special bits of a mode.
pub const PERMISSION_MASK: u32 = 0o7777;

/// The kind that a raw mode tells.
pub open spec fn kind_of(mode: u32) -> EntryKind {
    if mode & KIND_MASK == 0o040000 {
        EntryKind::Directory
    } else if mode & KIND_MASK == 0o100000 {
        EntryKind::Regular
    } else if mode & KIND_MASK == 0o120000 {
        EntryKind::Symlink
    } else {
        EntryKind::Other
    }
}

/// Two observations of one and the same object.
pub open spec fn are_same_object(left: FileStat, right: FileStat) -> bool {
    left.dev == right.dev && left.ino == right.ino
}

/// Two observations between which nothing about the object changed.
pub open spec fn are_same_snapshot(left: FileStat, right: FileStat) -> bool {
    left == right
}

impl FileStat {
    /// Returns the kind of the entry.
    pub fn kind(&self) -> (kind: EntryKind)
        ensures
            kind == kind_of(self.mode),
    {
        let bits: u32 = self.mode & KIND_MASK;
        if bits == 0o040000 {
            EntryKind::Directory
        } else if bits == 0o100000 {
            EntryKind::Regular
        } else if bits == 0o120000 {
            EntryKind::Symlink
        } else {
            EntryKind::Other
        }
    }

    /// Returns the permission and special bits of the entry.
    pub fn permissions(&self) -> (bits: u32)
        ensures
            bits == self.mode & PERMISSION_MASK,
    {
        self.mode & PERMISSION_MASK
    }

    /// Tells whether two observations are of one object.
    pub fn same_object(&self, other: &FileStat) -> (same: bool)
        ensures
            same == are_same_object(*self, *other),
    {
        self.dev == other.dev && self.ino == other.ino
    }

    /// Tells whether nothing about the object changed between two observations.
    pub fn same_file_snapshot(&self, other: &FileStat) -> (same: bool)
        ensures
            same == are_same_snapshot(*self, *other),
    {
        self.same_object(other) && self.mode == other.mode && self.uid == other.uid && self.gid
            == other.gid && self.nlink == other.nlink && self.size == other.size && self.mtime
            == other.mtime && self.mtime_nsec == other.mtime_nsec && self.ctime == other.ctime
            && self.ctime_nsec == other.ctime_nsec
    }
}

/// An unchanged snapshot is of the same object, and being the same object or the same
/// snapshot does not depend on who is asked and carries over.
pub proof fn lemma_observations_are_equivalences(a: FileStat, b: FileStat, c: FileStat)
    ensures
        are_same_object(a, a) && are_same_snapshot(a, a),
        are_same_object(a, b) == are_same_object(b, a),
        are_same_snapshot(a, b) == are_same_snapshot(b, a),
        are_same_object(a, b) && are_same_object(b, c) ==> are_same_object(a, c),
        are_same_snapshot(a, b) && are_same_snapshot(b, c) ==> are_same_snapshot(a, c),
        are_same_snapshot(a, b) ==> are_same_object(a, b),
{
}

/// Why a file-system call failed.
#[derive(Clone, Copy, Debug, PartialEq, Eq, Structural)]
pub enum HostErrorKind {
    /// There is no such entry.
    NotFound,
    /// A path component is not a directory.
    NotDirectory,
    /// The entry exists already.
    AlreadyExists,
    /// A symbolic link stands in the way.
    Loop,
    /// A mount boundary stands in the way.
    CrossDevice,
    /// The call would have to wait.
    WouldBlock,
    /// Something else.
    Other,
}

/// A failed file-system call: why it failed, and how the host words it.
#[derive(Debug)]
pub struct HostFailure<T = String> {
    pub kind: HostErrorKind,
    pub detail: T,
}

impl View for HostFailure<String> {
    type V = HostFailure<Seq<char>>;

    open spec fn view(&self) -> HostFailure<Seq<char>> {
        HostFailure { kind: self.kind, detail: self.detail@ }
    }
}

/// The view of an attempted observation.
pub open spec fn observation_view(observed: Result<FileStat, HostFailure>) -> Result<
    FileStat,
    HostFailure<Seq<char>>,
> {
    match observed {
        Ok(stat) => Ok(stat),
        Err(failure) => Err(failure@),
    }
}

} // verus!
