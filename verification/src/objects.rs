//! Immutable objects of the store: where they lie, what they must be, and whether they stay
//! what they were.

use vstd::prelude::*;
use vstd::utf8::*;

use crate::canonical::CanonicalObjectKind;
use crate::error::{CanonicalObjectIssue, EngineError, PackObjectIssue};
use crate::limits::{
    MAX_FILE_OBJECT_BYTES, MAX_PACK_OBJECT_BYTES, MAX_SYMLINK_OBJECT_BYTES, MAX_TREE_OBJECT_BYTES,
};
use crate::path;
use crate::path::join_paths;
use crate::seqs::copy_bytes;
use crate::stat;
use crate::stat::{EntryKind, FileStat, HostErrorKind, HostFailure, PERMISSION_MASK};
use crate::state_root;
use crate::state_root::io_error;

verus! {

/// Mode of a directory of objects.
pub const CONTAINER_MODE: u32 = 0o700;

/// Mode of an object.
pub const OBJECT_MODE: u32 = 0o400;

/// Which objects are meant.
#[derive(Clone, Copy, Debug, PartialEq, Eq, Structural)]
pub enum ObjectFlavor {
    /// Canonical objects of one kind.
    Canonical(CanonicalObjectKind),
    /// Packs in one piece.
    Pack,
}

/// The name of the directory of one kind of canonical objects.
pub open spec fn kind_directory(kind: CanonicalObjectKind) -> Seq<char> {
    match kind {
        CanonicalObjectKind::File => "files"@,
        CanonicalObjectKind::Symlink => "symlinks"@,
        CanonicalObjectKind::Tree => "trees"@,
    }
}

/// The name of the directory of the objects.
pub open spec fn flavor_directory(flavor: ObjectFlavor) -> Seq<char> {
    match flavor {
        ObjectFlavor::Canonical(kind) => kind_directory(kind),
        ObjectFlavor::Pack => "packs"@,
    }
}

/// Most bytes in one object.
pub open spec fn object_limit(flavor: ObjectFlavor) -> u64 {
    match flavor {
        ObjectFlavor::Canonical(CanonicalObjectKind::File) => MAX_FILE_OBJECT_BYTES,
        ObjectFlavor::Canonical(CanonicalObjectKind::Symlink) => MAX_SYMLINK_OBJECT_BYTES,
        ObjectFlavor::Canonical(CanonicalObjectKind::Tree) => MAX_TREE_OBJECT_BYTES,
        ObjectFlavor::Pack => MAX_PACK_OBJECT_BYTES,
    }
}

impl ObjectFlavor {
    /// Returns the name of the directory of the objects.
    pub fn directory(self) -> (name: &'static str)
        ensures
            name@ == flavor_directory(self),
    {
        match self {
            ObjectFlavor::Canonical(kind) => match kind {
                CanonicalObjectKind::File => "files",
                CanonicalObjectKind::Symlink => "symlinks",
                CanonicalObjectKind::Tree => "trees",
            },
            ObjectFlavor::Pack => "packs",
        }
    }

    /// Returns the number of bytes that one object may have.
    pub fn maximum_bytes(self) -> (limit: u64)
        ensures
            limit == object_limit(self),
    {
        match self {
            ObjectFlavor::Canonical(kind) => match kind {
                CanonicalObjectKind::File => MAX_FILE_OBJECT_BYTES,
                CanonicalObjectKind::Symlink => MAX_SYMLINK_OBJECT_BYTES,
                CanonicalObjectKind::Tree => MAX_TREE_OBJECT_BYTES,
            },
            ObjectFlavor::Pack => MAX_PACK_OBJECT_BYTES,
        }
    }
}

/// Where an object lies beneath the state root.
pub open spec fn object_location(root: Seq<u8>, flavor: ObjectFlavor, digest: Seq<char>) -> Seq<
    u8,
> {
    path::joined(
        path::joined(
            path::joined(root, encode_utf8("objects"@)),
            encode_utf8(flavor_directory(flavor)),
        ),
        encode_utf8(digest),
    )
}

/// Returns where an object lies beneath the state root.
pub fn object_path(root: &[u8], flavor: ObjectFlavor, digest: &str) -> (location: Vec<u8>)
    ensures
        location@ == object_location(root@, flavor, digest@),
{
    let objects = join_paths(root, "objects".as_bytes());
    let container = join_paths(objects.as_slice(), flavor.directory().as_bytes());
    join_paths(container.as_slice(), digest.as_bytes())
}

/// An object or its directory, and where a problem with it is reported; `T` is the type of
/// text and `B` that of byte strings.
#[derive(Debug)]
pub struct ObjectTarget<T = String, B = Vec<u8>> {
    pub flavor: ObjectFlavor,
    pub digest: T,
    pub path: B,
}

impl View for ObjectTarget<String, Vec<u8>> {
    type V = ObjectTarget<Seq<char>, Seq<u8>>;

    open spec fn view(&self) -> ObjectTarget<Seq<char>, Seq<u8>> {
        ObjectTarget { flavor: self.flavor, digest: self.digest@, path: self.path@ }
    }
}

/// A problem, said of a pack.
pub open spec fn pack_problem(problem: CanonicalObjectIssue<Seq<char>>) -> PackObjectIssue<
    Seq<char>,
> {
    match problem {
        CanonicalObjectIssue::Missing => PackObjectIssue::Missing,
        CanonicalObjectIssue::ContainerNotDirectory => PackObjectIssue::ContainerNotDirectory,
        CanonicalObjectIssue::ObjectNotRegular => PackObjectIssue::ObjectNotRegular,
        CanonicalObjectIssue::WrongOwner { expected_uid, actual_uid } => PackObjectIssue::WrongOwner { expected_uid, actual_uid },
        CanonicalObjectIssue::UnexpectedMode { expected, actual } => PackObjectIssue::UnexpectedMode { expected, actual },
        CanonicalObjectIssue::UnexpectedLinks { expected, actual } => PackObjectIssue::UnexpectedLinks { expected, actual },
        CanonicalObjectIssue::ObjectTooLarge { limit, actual } => PackObjectIssue::ObjectTooLarge { limit, actual },
        CanonicalObjectIssue::DigestMismatch { actual } => PackObjectIssue::DigestMismatch { actual },
        CanonicalObjectIssue::InvalidEncoding { detail } => PackObjectIssue::InvalidEncoding { detail },
        CanonicalObjectIssue::ObservationChanged => PackObjectIssue::ObservationChanged,
    }
}

fn to_pack_problem(problem: CanonicalObjectIssue) -> (said: PackObjectIssue)
    ensures
        said@ == pack_problem(problem@),
{
    match problem {
        CanonicalObjectIssue::Missing => PackObjectIssue::Missing,
        CanonicalObjectIssue::ContainerNotDirectory => PackObjectIssue::ContainerNotDirectory,
        CanonicalObjectIssue::ObjectNotRegular => PackObjectIssue::ObjectNotRegular,
        CanonicalObjectIssue::WrongOwner { expected_uid, actual_uid } => PackObjectIssue::WrongOwner { expected_uid, actual_uid },
        CanonicalObjectIssue::UnexpectedMode { expected, actual } => PackObjectIssue::UnexpectedMode { expected, actual },
        CanonicalObjectIssue::UnexpectedLinks { expected, actual } => PackObjectIssue::UnexpectedLinks { expected, actual },
        CanonicalObjectIssue::ObjectTooLarge { limit, actual } => PackObjectIssue::ObjectTooLarge { limit, actual },
        CanonicalObjectIssue::DigestMismatch { actual } => PackObjectIssue::DigestMismatch { actual },
        CanonicalObjectIssue::InvalidEncoding { detail } => PackObjectIssue::InvalidEncoding { detail },
        CanonicalObjectIssue::ObservationChanged => PackObjectIssue::ObservationChanged,
    }
}

/// The failure that a problem with an object is.
pub open spec fn object_failure(
    target: ObjectTarget<Seq<char>, Seq<u8>>,
    problem: CanonicalObjectIssue<Seq<char>>,
) -> EngineError<Seq<char>, Seq<u8>> {
    match target.flavor {
        ObjectFlavor::Canonical(kind) => EngineError::CanonicalObject {
            kind,
            digest: target.digest,
            path: target.path,
            reason: problem,
        },
        ObjectFlavor::Pack => EngineError::PackObject {
            digest: target.digest,
            path: target.path,
            reason: pack_problem(problem),
        },
    }
}

impl ObjectTarget {
    /// Reports a problem with the object.
    pub fn error(&self, problem: CanonicalObjectIssue) -> (error: EngineError)
        ensures
            error@ == object_failure(self@, problem@),
    {
        match self.flavor {
            ObjectFlavor::Canonical(kind) => EngineError::CanonicalObject {
                kind,
                digest: self.digest.clone(),
                path: copy_bytes(self.path.as_slice()),
                reason: problem,
            },
            ObjectFlavor::Pack => EngineError::PackObject {
                digest: self.digest.clone(),
                path: copy_bytes(self.path.as_slice()),
                reason: to_pack_problem(problem),
            },
        }
    }

    fn io(&self, operation: ObjectOperation, detail: &str) -> (error: EngineError)
        ensures
            error@ == object_io_failure(self@, operation, detail@),
    {
        io_error(operation.name(self.flavor), self.path.as_slice(), detail)
    }
}

/// File-system calls on objects that can fail.
#[derive(Clone, Copy, Debug, PartialEq, Eq, Structural)]
pub enum ObjectOperation {
    InspectContainer,
    InspectCreatedContainer,
    InspectOpenedContainer,
    InspectPinnedContainer,
    RevalidateContainer,
    InspectObject,
    OpenObject,
    InspectOpenedObject,
    InspectPinnedObject,
    RevalidateObject,
    ReadObject,
}

/// How a call is worded.
pub open spec fn operation_words(operation: ObjectOperation, flavor: ObjectFlavor) -> Seq<char> {
    match flavor {
        ObjectFlavor::Canonical(_) => match operation {
            ObjectOperation::InspectContainer => "inspect canonical-object container"@,
            ObjectOperation::InspectCreatedContainer => "inspect created canonical-object container"@,
            ObjectOperation::InspectOpenedContainer => "inspect opened canonical-object container"@,
            ObjectOperation::InspectPinnedContainer => "inspect pinned canonical-object container"@,
            ObjectOperation::RevalidateContainer => "revalidate canonical-object container binding"@,
            ObjectOperation::InspectObject => "inspect canonical object"@,
            ObjectOperation::OpenObject => "open canonical object without following symlinks"@,
            ObjectOperation::InspectOpenedObject => "inspect opened canonical object"@,
            ObjectOperation::InspectPinnedObject => "inspect pinned canonical object"@,
            ObjectOperation::RevalidateObject => "revalidate canonical-object binding"@,
            ObjectOperation::ReadObject => "read canonical object"@,
        },
        ObjectFlavor::Pack => match operation {
            ObjectOperation::InspectContainer => "inspect v1 pack-object container"@,
            ObjectOperation::InspectCreatedContainer => "inspect created v1 pack-object container"@,
            ObjectOperation::InspectOpenedContainer => "inspect opened pack-object container"@,
            ObjectOperation::InspectPinnedContainer => "inspect pinned pack-object container"@,
            ObjectOperation::RevalidateContainer => "revalidate pack-object container binding"@,
            ObjectOperation::InspectObject => "inspect v1 pack object"@,
            ObjectOperation::OpenObject => "open v1 pack object without following symlinks"@,
            ObjectOperation::InspectOpenedObject => "inspect opened v1 pack object"@,
            ObjectOperation::InspectPinnedObject => "inspect pinned v1 pack object"@,
            ObjectOperation::RevalidateObject => "revalidate v1 pack-object binding"@,
            ObjectOperation::ReadObject => "read v1 pack object"@,
        },
    }
}

impl ObjectOperation {
    /// Returns how the call is worded.
    pub fn name(self, flavor: ObjectFlavor) -> (words: &'static str)
        ensures
            words@ == operation_words(self, flavor),
    {
        match flavor {
            ObjectFlavor::Canonical(_) => match self {
                ObjectOperation::InspectContainer => "inspect canonical-object container",
                ObjectOperation::InspectCreatedContainer => "inspect created canonical-object container",
                ObjectOperation::InspectOpenedContainer => "inspect opened canonical-object container",
                ObjectOperation::InspectPinnedContainer => "inspect pinned canonical-object container",
                ObjectOperation::RevalidateContainer => "revalidate canonical-object container binding",
                ObjectOperation::InspectObject => "inspect canonical object",
                ObjectOperation::OpenObject => "open canonical object without following symlinks",
                ObjectOperation::InspectOpenedObject => "inspect opened canonical object",
                ObjectOperation::InspectPinnedObject => "inspect pinned canonical object",
                ObjectOperation::RevalidateObject => "revalidate canonical-object binding",
                ObjectOperation::ReadObject => "read canonical object",
            },
            ObjectFlavor::Pack => match self {
                ObjectOperation::InspectContainer => "inspect v1 pack-object container",
                ObjectOperation::InspectCreatedContainer => "inspect created v1 pack-object container",
                ObjectOperation::InspectOpenedContainer => "inspect opened pack-object container",
                ObjectOperation::InspectPinnedContainer => "inspect pinned pack-object container",
                ObjectOperation::RevalidateContainer => "revalidate pack-object container binding",
                ObjectOperation::InspectObject => "inspect v1 pack object",
                ObjectOperation::OpenObject => "open v1 pack object without following symlinks",
                ObjectOperation::InspectOpenedObject => "inspect opened v1 pack object",
                ObjectOperation::InspectPinnedObject => "inspect pinned v1 pack object",
                ObjectOperation::RevalidateObject => "revalidate v1 pack-object binding",
                ObjectOperation::ReadObject => "read v1 pack object",
            },
        }
    }
}

/// A call that failed.
pub open spec fn object_io_failure(
    target: ObjectTarget<Seq<char>, Seq<u8>>,
    operation: ObjectOperation,
    detail: Seq<char>,
) -> EngineError<Seq<char>, Seq<u8>> {
    state_root::io_failure(operation_words(operation, target.flavor), target.path, detail)
}

/// What is wrong with a directory of objects, if anything; the first problem counts.
pub open spec fn container_problem(stat: FileStat, user: u32) -> Option<
    CanonicalObjectIssue<Seq<char>>,
> {
    if stat::kind_of(stat.mode) != EntryKind::Directory {
        Some(CanonicalObjectIssue::ContainerNotDirectory)
    } else if stat.uid != user {
        Some(CanonicalObjectIssue::WrongOwner { expected_uid: user, actual_uid: stat.uid })
    } else if stat.mode & PERMISSION_MASK != CONTAINER_MODE {
        Some(
            CanonicalObjectIssue::UnexpectedMode {
                expected: CONTAINER_MODE,
                actual: stat.mode & PERMISSION_MASK,
            },
        )
    } else {
        None
    }
}

/// The size that is reported of an object with a negative size.
pub open spec fn reported_size(flavor: ObjectFlavor, size: i64) -> u64 {
    if size >= 0 {
        size as u64
    } else {
        match flavor {
            ObjectFlavor::Canonical(_) => u64::MAX,
            ObjectFlavor::Pack => 0,
        }
    }
}

/// What is wrong with an object, if anything; the first problem counts.
pub open spec fn object_problem(flavor: ObjectFlavor, stat: FileStat, links: u64, user: u32) -> Option<
    CanonicalObjectIssue<Seq<char>>,
> {
    if stat::kind_of(stat.mode) != EntryKind::Regular {
        Some(CanonicalObjectIssue::ObjectNotRegular)
    } else if stat.uid != user {
        Some(CanonicalObjectIssue::WrongOwner { expected_uid: user, actual_uid: stat.uid })
    } else if stat.mode & PERMISSION_MASK != OBJECT_MODE {
        Some(
            CanonicalObjectIssue::UnexpectedMode {
                expected: OBJECT_MODE,
                actual: stat.mode & PERMISSION_MASK,
            },
        )
    } else if stat.nlink != links {
        Some(CanonicalObjectIssue::UnexpectedLinks { expected: links, actual: stat.nlink })
    } else if stat.size < 0 || stat.size > object_limit(flavor) {
        Some(
            CanonicalObjectIssue::ObjectTooLarge {
                limit: object_limit(flavor),
                actual: reported_size(flavor, stat.size),
            },
        )
    } else {
        None
    }
}

/// The check of a directory of objects.
pub open spec fn container_check(
    target: ObjectTarget<Seq<char>, Seq<u8>>,
    stat: FileStat,
    user: u32,
) -> Result<(), EngineError<Seq<char>, Seq<u8>>> {
    match container_problem(stat, user) {
        Some(problem) => Err(object_failure(target, problem)),
        None => Ok(()),
    }
}

/// The check of an object.
pub open spec fn object_check(
    target: ObjectTarget<Seq<char>, Seq<u8>>,
    stat: FileStat,
    links: u64,
    user: u32,
) -> Result<(), EngineError<Seq<char>, Seq<u8>>> {
    match object_problem(target.flavor, stat, links, user) {
        Some(problem) => Err(object_failure(target, problem)),
        None => Ok(()),
    }
}

/// Checks a directory of objects.
pub fn validate_container_stat(target: &ObjectTarget, stat: &FileStat, expected_uid: u32) -> (checked:
    Result<(), EngineError>)
    ensures
        state_root::check_is(checked, container_check(target@, *stat, expected_uid)),
{
    let mode: u32 = stat.permissions();
    let problem = if stat.kind() != EntryKind::Directory {
        CanonicalObjectIssue::ContainerNotDirectory
    } else if stat.uid != expected_uid {
        CanonicalObjectIssue::WrongOwner { expected_uid, actual_uid: stat.uid }
    } else if mode != CONTAINER_MODE {
        CanonicalObjectIssue::UnexpectedMode { expected: CONTAINER_MODE, actual: mode }
    } else {
        return Ok(());
    };
    Err(target.error(problem))
}

/// Checks an object.
pub fn validate_object_stat(
    target: &ObjectTarget,
    stat: &FileStat,
    expected_links: u64,
    expected_uid: u32,
) -> (checked: Result<(), EngineError>)
    ensures
        state_root::check_is(checked, object_check(target@, *stat, expected_links, expected_uid)),
{
    let mode: u32 = stat.permissions();
    let limit: u64 = target.flavor.maximum_bytes();
    let problem = if stat.kind() != EntryKind::Regular {
        CanonicalObjectIssue::ObjectNotRegular
    } else if stat.uid != expected_uid {
        CanonicalObjectIssue::WrongOwner { expected_uid, actual_uid: stat.uid }
    } else if mode != OBJECT_MODE {
        CanonicalObjectIssue::UnexpectedMode { expected: OBJECT_MODE, actual: mode }
    } else if stat.nlink != expected_links {
        CanonicalObjectIssue::UnexpectedLinks { expected: expected_links, actual: stat.nlink }
    } else if stat.size < 0 {
        let actual: u64 = match target.flavor {
            ObjectFlavor::Canonical(_) => u64::MAX,
            ObjectFlavor::Pack => 0,
        };
        CanonicalObjectIssue::ObjectTooLarge { limit, actual }
    } else if stat.size as u64 > limit {
        CanonicalObjectIssue::ObjectTooLarge { limit, actual: stat.size as u64 }
    } else {
        return Ok(());
    };
    Err(target.error(problem))
}

/// The check of a directory of objects that was just observed.
pub open spec fn container_observation(
    target: ObjectTarget<Seq<char>, Seq<u8>>,
    operation: ObjectOperation,
    observed: Result<FileStat, HostFailure<Seq<char>>>,
    user: u32,
) -> Result<FileStat, EngineError<Seq<char>, Seq<u8>>> {
    match observed {
        Err(failure) => Err(object_io_failure(target, operation, failure.detail)),
        Ok(stat) => match container_problem(stat, user) {
            Some(problem) => Err(object_failure(target, problem)),
            None => Ok(stat),
        },
    }
}

/// Checks a directory of objects that was just observed.
pub fn check_container_observation(
    target: &ObjectTarget,
    operation: ObjectOperation,
    observed: Result<FileStat, HostFailure>,
    expected_uid: u32,
) -> (checked: Result<FileStat, EngineError>)
    ensures
        state_root::checked_view(checked) == container_observation(
            target@,
            operation,
            stat::observation_view(observed),
            expected_uid,
        ),
{
    match observed {
        Err(failure) => Err(target.io(operation, failure.detail.as_str())),
        Ok(stat) => match validate_container_stat(target, &stat, expected_uid) {
            Err(error) => Err(error),
            Ok(_) => Ok(stat),
        },
    }
}

/// Checks that what was opened is the directory of objects that was observed.
pub fn check_opened_container(
    target: &ObjectTarget,
    observed: &FileStat,
    opened: Result<FileStat, HostFailure>,
    expected_uid: u32,
) -> (checked: Result<(), EngineError>)
    ensures
        state_root::check_is(
            checked,
            match container_observation(
                target@,
                ObjectOperation::InspectOpenedContainer,
                stat::observation_view(opened),
                expected_uid,
            ) {
                Err(error) => Err(error),
                Ok(found) => if stat::are_same_object(*observed, found) {
                    Ok(())
                } else {
                    Err(object_failure(target@, CanonicalObjectIssue::ObservationChanged))
                },
            },
        ),
{
    match check_container_observation(
        target,
        ObjectOperation::InspectOpenedContainer,
        opened,
        expected_uid,
    ) {
        Err(error) => Err(error),
        Ok(found) => {
            if observed.same_object(&found) {
                Ok(())
            } else {
                Err(target.error(CanonicalObjectIssue::ObservationChanged))
            }
        },
    }
}

/// A name still leads to the pinned directory of objects.
pub open spec fn container_binding(
    target: ObjectTarget<Seq<char>, Seq<u8>>,
    pinned: Result<FileStat, HostFailure<Seq<char>>>,
    bound: Result<FileStat, HostFailure<Seq<char>>>,
    user: u32,
) -> Result<(), EngineError<Seq<char>, Seq<u8>>> {
    match container_observation(target, ObjectOperation::InspectPinnedContainer, pinned, user) {
        Err(error) => Err(error),
        Ok(pin) => match bound {
            Err(failure) => if failure.kind == HostErrorKind::NotFound {
                Err(object_failure(target, CanonicalObjectIssue::ObservationChanged))
            } else {
                Err(
                    object_io_failure(target, ObjectOperation::RevalidateContainer, failure.detail),
                )
            },
            Ok(found) => match container_problem(found, user) {
                Some(problem) => Err(object_failure(target, problem)),
                None => if stat::are_same_object(pin, found) {
                    Ok(())
                } else {
                    Err(object_failure(target, CanonicalObjectIssue::ObservationChanged))
                },
            },
        },
    }
}

/// Checks that a name still leads to the pinned directory of objects.
pub fn ensure_container_bound(
    target: &ObjectTarget,
    pinned: Result<FileStat, HostFailure>,
    bound: Result<FileStat, HostFailure>,
    expected_uid: u32,
) -> (checked: Result<(), EngineError>)
    ensures
        state_root::check_is(
            checked,
            container_binding(
                target@,
                stat::observation_view(pinned),
                stat::observation_view(bound),
                expected_uid,
            ),
        ),
{
    let pin = match check_container_observation(
        target,
        ObjectOperation::InspectPinnedContainer,
        pinned,
        expected_uid,
    ) {
        Ok(pin) => pin,
        Err(error) => {
            return Err(error);
        },
    };
    let found = match bound {
        Ok(found) => found,
        Err(failure) => {
            if failure.kind == HostErrorKind::NotFound {
                return Err(target.error(CanonicalObjectIssue::ObservationChanged));
            }
            return Err(
                target.io(ObjectOperation::RevalidateContainer, failure.detail.as_str()),
            );
        },
    };
    match validate_container_stat(target, &found, expected_uid) {
        Err(error) => Err(error),
        Ok(_) => {
            if pin.same_object(&found) {
                Ok(())
            } else {
                Err(target.error(CanonicalObjectIssue::ObservationChanged))
            }
        },
    }
}

/// A digest's name still leads to the pinned object, and both observations are of a sound
/// object.
pub open spec fn object_binding(
    target: ObjectTarget<Seq<char>, Seq<u8>>,
    pinned: Result<FileStat, HostFailure<Seq<char>>>,
    bound: Result<FileStat, HostFailure<Seq<char>>>,
    user: u32,
) -> Result<FileStat, EngineError<Seq<char>, Seq<u8>>> {
    match pinned {
        Err(failure) => Err(
            object_io_failure(target, ObjectOperation::InspectPinnedObject, failure.detail),
        ),
        Ok(pin) => match bound {
            Err(failure) => if failure.kind == HostErrorKind::NotFound {
                Err(object_failure(target, CanonicalObjectIssue::ObservationChanged))
            } else {
                Err(object_io_failure(target, ObjectOperation::RevalidateObject, failure.detail))
            },
            Ok(found) => if !stat::are_same_object(pin, found) {
                Err(object_failure(target, CanonicalObjectIssue::ObservationChanged))
            } else {
                match object_problem(target.flavor, pin, 1, user) {
                    Some(problem) => Err(object_failure(target, problem)),
                    None => match object_problem(target.flavor, found, 1, user) {
                        Some(problem) => Err(object_failure(target, problem)),
                        None => Ok(pin),
                    },
                }
            },
        },
    }
}

/// Checks that a digest's name still leads to the pinned object.
pub fn ensure_object_bound(
    target: &ObjectTarget,
    pinned: Result<FileStat, HostFailure>,
    bound: Result<FileStat, HostFailure>,
    expected_uid: u32,
) -> (checked: Result<FileStat, EngineError>)
    ensures
        state_root::checked_view(checked) == object_binding(
            target@,
            stat::observation_view(pinned),
            stat::observation_view(bound),
            expected_uid,
        ),
{
    let pin = match pinned {
        Ok(pin) => pin,
        Err(failure) => {
            return Err(
                target.io(ObjectOperation::InspectPinnedObject, failure.detail.as_str()),
            );
        },
    };
    let found = match bound {
        Ok(found) => found,
        Err(failure) => {
            if failure.kind == HostErrorKind::NotFound {
                return Err(target.error(CanonicalObjectIssue::ObservationChanged));
            }
            return Err(target.io(ObjectOperation::RevalidateObject, failure.detail.as_str()));
        },
    };
    if !pin.same_object(&found) {
        return Err(target.error(CanonicalObjectIssue::ObservationChanged));
    }
    match validate_object_stat(target, &pin, 1, expected_uid) {
        Err(error) => {
            return Err(error);
        },
        Ok(_) => {},
    }
    match validate_object_stat(target, &found, 1, expected_uid) {
        Err(error) => Err(error),
        Ok(_) => Ok(pin),
    }
}

/// What the strict decoder says of an object's bytes; `T` is the type of text.
#[derive(Debug)]
pub enum ObjectVerdict<T = String> {
    /// The bytes are the object.
    Verified,
    /// There are too many bytes.
    TooLarge { limit: usize, actual: usize },
    /// The bytes have another digest.
    DigestMismatch { actual: T },
    /// Anything else, in words.
    Invalid { detail: T },
}

impl View for ObjectVerdict<String> {
    type V = ObjectVerdict<Seq<char>>;

    open spec fn view(&self) -> ObjectVerdict<Seq<char>> {
        match *self {
            ObjectVerdict::Verified => ObjectVerdict::Verified,
            ObjectVerdict::TooLarge { limit, actual } => ObjectVerdict::TooLarge { limit, actual },
            ObjectVerdict::DigestMismatch { actual } => ObjectVerdict::DigestMismatch {
                actual: actual@,
            },
            ObjectVerdict::Invalid { detail } => ObjectVerdict::Invalid { detail: detail@ },
        }
    }
}

/// What a verdict means.
pub open spec fn verdict_check(
    target: ObjectTarget<Seq<char>, Seq<u8>>,
    verdict: ObjectVerdict<Seq<char>>,
) -> Result<(), EngineError<Seq<char>, Seq<u8>>> {
    match verdict {
        ObjectVerdict::Verified => Ok(()),
        ObjectVerdict::TooLarge { limit, actual } => Err(
            object_failure(
                target,
                CanonicalObjectIssue::ObjectTooLarge { limit: limit as u64, actual: actual as u64 },
            ),
        ),
        ObjectVerdict::DigestMismatch { actual } => Err(
            object_failure(target, CanonicalObjectIssue::DigestMismatch { actual }),
        ),
        ObjectVerdict::Invalid { detail } => Err(
            object_failure(target, CanonicalObjectIssue::InvalidEncoding { detail }),
        ),
    }
}

/// Decides what a verdict means.
pub fn verify_canonical(target: &ObjectTarget, verdict: ObjectVerdict) -> (checked: Result<
    (),
    EngineError,
>)
    ensures
        state_root::check_is(checked, verdict_check(target@, verdict@)),
{
    match verdict {
        ObjectVerdict::Verified => Ok(()),
        ObjectVerdict::TooLarge { limit, actual } => Err(
            target.error(
                CanonicalObjectIssue::ObjectTooLarge { limit: limit as u64, actual: actual as u64 },
            ),
        ),
        ObjectVerdict::DigestMismatch { actual } => Err(
            target.error(CanonicalObjectIssue::DigestMismatch { actual }),
        ),
        ObjectVerdict::Invalid { detail } => Err(
            target.error(CanonicalObjectIssue::InvalidEncoding { detail }),
        ),
    }
}

/// An object whose binding holds is sound: a private, immutable regular file with one link
/// and no more bytes than it may have.
pub proof fn lemma_bound_object_is_sound(
    target: ObjectTarget<Seq<char>, Seq<u8>>,
    pinned: Result<FileStat, HostFailure<Seq<char>>>,
    bound: Result<FileStat, HostFailure<Seq<char>>>,
    user: u32,
)
    ensures
        object_binding(target, pinned, bound, user) matches Ok(stat) ==> {
            &&& pinned == Ok::<FileStat, HostFailure<Seq<char>>>(stat)
            &&& stat::kind_of(stat.mode) == EntryKind::Regular
            &&& stat.uid == user
            &&& stat.mode & PERMISSION_MASK == OBJECT_MODE
            &&& stat.nlink == 1
            &&& 0 <= stat.size <= object_limit(target.flavor)
            &&& bound matches Ok(found) && stat::are_same_object(stat, found)
        },
{
}

/// A container passes exactly where it is a directory of the user that nobody else has a right
/// to; an object, where it is a regular file of the user that the user may only read, has the
/// number of names that is asked for, and is not too large. The reason tells what was found.
pub proof fn lemma_only_sound_objects_pass(
    flavor: ObjectFlavor,
    stat: FileStat,
    links: u64,
    user: u32,
)
    ensures
        match container_problem(stat, user) {
            None => stat.mode & 0o170000 == 0o040000 && stat.uid == user && stat.mode & 0o7777
                == 0o700,
            Some(CanonicalObjectIssue::ContainerNotDirectory) => stat.mode & 0o170000 != 0o040000,
            Some(CanonicalObjectIssue::WrongOwner { expected_uid, actual_uid }) => expected_uid
                == user && actual_uid == stat.uid && stat.uid != user,
            Some(CanonicalObjectIssue::UnexpectedMode { expected, actual }) => expected == 0o700
                && actual == stat.mode & 0o7777 && actual != expected,
            Some(_) => false,
        },
        match object_problem(flavor, stat, links, user) {
            None => stat.mode & 0o170000 == 0o100000 && stat.uid == user && stat.mode & 0o7777
                == 0o400 && stat.nlink == links && 0 <= stat.size <= object_limit(flavor),
            Some(CanonicalObjectIssue::ObjectNotRegular) => stat.mode & 0o170000 != 0o100000,
            Some(CanonicalObjectIssue::WrongOwner { expected_uid, actual_uid }) => expected_uid
                == user && actual_uid == stat.uid && stat.uid != user,
            Some(CanonicalObjectIssue::UnexpectedMode { expected, actual }) => expected == 0o400
                && actual == stat.mode & 0o7777 && actual != expected,
            Some(CanonicalObjectIssue::UnexpectedLinks { expected, actual }) => expected == links
                && actual == stat.nlink && actual != expected,
            Some(CanonicalObjectIssue::ObjectTooLarge { limit, actual }) => limit == object_limit(
                flavor,
            ) && (stat.size < 0 || (actual == stat.size && actual > limit)),
            Some(_) => false,
        },
{
}

/// Objects of each flavor stand in a directory of their own, under their digest, and are bounded
/// by a size of their own.
pub proof fn lemma_objects_have_their_place(root: Seq<u8>, flavor: ObjectFlavor, digest: Seq<char>)
    ensures
        ({
            let (directory, limit): (Seq<char>, int) = match flavor {
                ObjectFlavor::Canonical(CanonicalObjectKind::File) => ("files"@, 536_870_976),
                ObjectFlavor::Canonical(CanonicalObjectKind::Symlink) => ("symlinks"@, 4_160),
                ObjectFlavor::Canonical(CanonicalObjectKind::Tree) => ("trees"@, 67_108_864),
                ObjectFlavor::Pack => ("packs"@, 1_073_741_824),
            };
            &&& object_location(root, flavor, digest) == path::joined(
                path::joined(
                    path::joined(root, encode_utf8("objects"@)),
                    encode_utf8(directory),
                ),
                encode_utf8(digest),
            )
            &&& object_limit(flavor) == limit
        }),
{
}

/// A failure tells the object that it is about and what is wrong with it, in the same words for
/// every flavor.
pub proof fn lemma_failures_tell_their_object(
    target: ObjectTarget<Seq<char>, Seq<u8>>,
    problem: CanonicalObjectIssue<Seq<char>>,
)
    ensures
        match object_failure(target, problem) {
            EngineError::CanonicalObject { kind, digest, path, reason } => target.flavor
                == ObjectFlavor::Canonical(kind) && digest == target.digest && path == target.path
                && reason == problem,
            EngineError::PackObject { digest, path, reason } => target.flavor is Pack && digest
                == target.digest && path == target.path && match problem {
                CanonicalObjectIssue::Missing => reason is Missing,
                CanonicalObjectIssue::ContainerNotDirectory => reason is ContainerNotDirectory,
                CanonicalObjectIssue::ObjectNotRegular => reason is ObjectNotRegular,
                CanonicalObjectIssue::WrongOwner { expected_uid: expected, actual_uid: actual } =>
                    reason matches PackObjectIssue::WrongOwner { expected_uid, actual_uid }
                    && expected_uid == expected && actual_uid == actual,
                CanonicalObjectIssue::UnexpectedMode { expected: wanted, actual: found } =>
                    reason matches PackObjectIssue::UnexpectedMode { expected, actual } && expected
                    == wanted && actual == found,
                CanonicalObjectIssue::UnexpectedLinks { expected: wanted, actual: found } =>
                    reason matches PackObjectIssue::UnexpectedLinks { expected, actual }
                    && expected == wanted && actual == found,
                CanonicalObjectIssue::ObjectTooLarge { limit: wanted, actual: found } =>
                    reason matches PackObjectIssue::ObjectTooLarge { limit, actual } && limit
                    == wanted && actual == found,
                CanonicalObjectIssue::DigestMismatch { actual: found } =>
                    reason matches PackObjectIssue::DigestMismatch { actual } && actual == found,
                CanonicalObjectIssue::InvalidEncoding { detail: told } =>
                    reason matches PackObjectIssue::InvalidEncoding { detail } && detail == told,
                CanonicalObjectIssue::ObservationChanged => reason is ObservationChanged,
            },
            _ => false,
        },
{
}

/// A container and an object are still bound exactly where both what was pinned and what the
/// name leads to pass and are on the same device, with the same number.
pub proof fn lemma_objects_are_bound_to_what_was_pinned(
    target: ObjectTarget<Seq<char>, Seq<u8>>,
    pin: FileStat,
    found: FileStat,
    user: u32,
)
    ensures
        ({
            let pinned = Ok::<FileStat, HostFailure<Seq<char>>>(pin);
            let bound = Ok::<FileStat, HostFailure<Seq<char>>>(found);
            let is_same = pin.dev == found.dev && pin.ino == found.ino;
            &&& container_binding(target, pinned, bound, user) is Ok <==> is_same
                && container_problem(pin, user) is None && container_problem(found, user) is None
            &&& object_binding(target, pinned, bound, user) is Ok <==> is_same && object_problem(
                target.flavor,
                pin,
                1,
                user,
            ) is None && object_problem(target.flavor, found, 1, user) is None
            &&& object_binding(target, pinned, bound, user) matches Ok(kept) ==> kept == pin
            &&& !is_same ==> object_binding(target, pinned, bound, user) == Err::<
                FileStat,
                EngineError<Seq<char>, Seq<u8>>,
            >(object_failure(target, CanonicalObjectIssue::ObservationChanged))
        }),
{
}

/// Only an object that was found to be what its digest says passes, and the failure of another
/// one tells what was found.
pub proof fn lemma_only_verified_objects_pass(
    target: ObjectTarget<Seq<char>, Seq<u8>>,
    judged: ObjectVerdict<Seq<char>>,
)
    ensures
        verdict_check(target, judged) is Ok <==> judged is Verified,
        judged matches ObjectVerdict::DigestMismatch { actual } ==> verdict_check(target, judged)
            == Err::<(), EngineError<Seq<char>, Seq<u8>>>(
            object_failure(target, CanonicalObjectIssue::DigestMismatch { actual }),
        ),
        judged matches ObjectVerdict::Invalid { detail } ==> verdict_check(target, judged) == Err::<
            (),
            EngineError<Seq<char>, Seq<u8>>,
        >(object_failure(target, CanonicalObjectIssue::InvalidEncoding { detail })),
        judged matches ObjectVerdict::TooLarge { limit, actual } ==> verdict_check(target, judged)
            == Err::<(), EngineError<Seq<char>, Seq<u8>>>(
            object_failure(
                target,
                CanonicalObjectIssue::ObjectTooLarge { limit: limit as u64, actual: actual as u64 },
            ),
        ),
{
}

} // verus!
