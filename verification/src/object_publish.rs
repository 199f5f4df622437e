//! The order in which objects get into the store.
//!
//! An object is written without a name, made durable, and only then linked under its digest;
//! a name that is taken is never replaced. The caller performs the current step and reports
//! how it went.

use vstd::prelude::*;

use crate::canonical::{CanonicalObjectKind, CanonicalObjectPublication};
use crate::error::{ArchivePublicationError, EngineError};
use crate::seqs;
use crate::store_steps;
use crate::store_steps::Progress;
use crate::store_types::{PackObjectPublication, StoreAccess};
use crate::text::text_equal;

verus! {

/// A step of opening a directory of objects; it ends with whether there is one.
#[derive(Clone, Copy, Debug, PartialEq, Eq, Structural)]
pub enum ContainerStep {
    /// Look for the directory: `Ok(false)` where it does not exist.
    Observe,
    /// Create the directory; it may exist by now.
    Create,
    /// Look at the created directory.
    ObserveCreated,
    /// Open the directory without following links.
    Open,
    /// Check that what was opened is what was observed.
    InspectOpened,
    /// Make the directory durable.
    SyncContainer,
    /// Make its name durable.
    SyncParent,
}

/// What follows a step of opening a directory of objects; it ends with whether there is one.
pub open spec fn container_after(
    step: ContainerStep,
    reply: Result<bool, EngineError<Seq<char>, Seq<u8>>>,
    create: bool,
) -> Progress<ContainerStep, bool, EngineError<Seq<char>, Seq<u8>>> {
    match reply {
        Err(error) => Progress::Failed(error),
        Ok(yes) => match step {
            ContainerStep::Observe => if yes {
                Progress::Next(ContainerStep::Open)
            } else {
                if create {
                    Progress::Next(ContainerStep::Create)
                } else {
                    Progress::Done(false)
                }
            },
            ContainerStep::Create => Progress::Next(ContainerStep::ObserveCreated),
            ContainerStep::ObserveCreated => Progress::Next(ContainerStep::Open),
            ContainerStep::Open => Progress::Next(ContainerStep::InspectOpened),
            ContainerStep::InspectOpened => if create {
                    Progress::Next(ContainerStep::SyncContainer)
                } else {
                    Progress::Done(true)
                },
            ContainerStep::SyncContainer => Progress::Next(ContainerStep::SyncParent),
            ContainerStep::SyncParent => Progress::Done(true),
        },
    }
}

impl ContainerStep {
    /// Decides what follows this step.
    pub fn after(self, reply: Result<bool, EngineError>, create: bool) -> (progress: Progress<ContainerStep, bool>)
        ensures
            store_steps::progress_view(progress) == container_after(self, store_steps::reply_view(reply), create),
    {
        let yes = match reply {
            Err(error) => {
                return Progress::Failed(error);
            },
            Ok(yes) => yes,
        };
        match self {
            ContainerStep::Observe => if yes {
                Progress::Next(ContainerStep::Open)
            } else {
                if create {
                    Progress::Next(ContainerStep::Create)
                } else {
                    Progress::Done(false)
                }
            },
            ContainerStep::Create => Progress::Next(ContainerStep::ObserveCreated),
            ContainerStep::ObserveCreated => Progress::Next(ContainerStep::Open),
            ContainerStep::Open => Progress::Next(ContainerStep::InspectOpened),
            ContainerStep::InspectOpened => if create {
                    Progress::Next(ContainerStep::SyncContainer)
                } else {
                    Progress::Done(true)
                },
            ContainerStep::SyncContainer => Progress::Next(ContainerStep::SyncParent),
            ContainerStep::SyncParent => Progress::Done(true),
        }
    }
}

/// How far opening a directory of objects has come.
pub open spec fn container_rank(step: ContainerStep) -> nat {
    match step {
        ContainerStep::Observe => 0,
        ContainerStep::Create => 1,
        ContainerStep::ObserveCreated => 2,
        ContainerStep::Open => 3,
        ContainerStep::InspectOpened => 4,
        ContainerStep::SyncContainer => 5,
        ContainerStep::SyncParent => 6,
    }
}

/// Opening a directory of objects never goes back. Where it may be created, it ends with a
/// directory; where it may not, nothing is created or made durable.
pub proof fn lemma_containers_are_created_on_request_only(
    step: ContainerStep,
    reply: Result<bool, EngineError<Seq<char>, Seq<u8>>>,
    create: bool,
)
    ensures
        container_after(step, reply, create) matches Progress::Next(next) ==> container_rank(step)
            < container_rank(next),
        create ==> container_after(step, reply, create) != Progress::<
            ContainerStep,
            bool,
            EngineError<Seq<char>, Seq<u8>>,
        >::Done(false),
        !create && container_rank(step) != 1 && container_rank(step) != 5 ==> (container_after(
            step,
            reply,
            create,
        ) matches Progress::Next(next) ==> next != ContainerStep::Create && next
            != ContainerStep::SyncContainer),
{
}

/// A step of publishing one canonical object.
#[derive(Clone, Copy, Debug, PartialEq, Eq, Structural)]
pub enum PublishObjectStep {
    /// Verify the bytes.
    Verify,
    /// Check the directories.
    RevalidateContainers,
    /// Look for the object and check it: `Ok(false)` where it does not exist.
    LookUp,
    /// Create a file without a name.
    Create,
    /// Make the file immutable.
    Restrict,
    /// Write the bytes.
    Write,
    /// Flush the file.
    Flush,
    /// Make the file durable.
    Sync,
    /// Check the file, which has no link yet.
    InspectStaged,
    /// Check the directories.
    RevalidateBeforeLink,
    /// Check the directories once more.
    RevalidateBeforeLinkAgain,
    /// Give the file its name: `Ok(false)` where the name is taken.
    Link,
    /// Check that the name leads to the file, which has one link by now.
    BindPublished,
    /// Make the file durable.
    SyncPublished,
    /// Make its name durable.
    SyncContainer,
    /// Check the directories for the last time.
    RevalidateAfterLink,
    /// Read and verify the object that was there first, and make it durable.
    ReadExisting,
}

/// What follows a step of publishing one canonical object.
pub open spec fn publish_object_after(
    step: PublishObjectStep,
    reply: Result<bool, EngineError<Seq<char>, Seq<u8>>>,
) -> Progress<PublishObjectStep, CanonicalObjectPublication, EngineError<Seq<char>, Seq<u8>>> {
    match reply {
        Err(error) => Progress::Failed(error),
        Ok(yes) => match step {
            PublishObjectStep::Verify => Progress::Next(PublishObjectStep::RevalidateContainers),
            PublishObjectStep::RevalidateContainers => Progress::Next(PublishObjectStep::LookUp),
            PublishObjectStep::LookUp => if yes {
                Progress::Next(PublishObjectStep::ReadExisting)
            } else {
                Progress::Next(PublishObjectStep::Create)
            },
            PublishObjectStep::Create => Progress::Next(PublishObjectStep::Restrict),
            PublishObjectStep::Restrict => Progress::Next(PublishObjectStep::Write),
            PublishObjectStep::Write => Progress::Next(PublishObjectStep::Flush),
            PublishObjectStep::Flush => Progress::Next(PublishObjectStep::Sync),
            PublishObjectStep::Sync => Progress::Next(PublishObjectStep::InspectStaged),
            PublishObjectStep::InspectStaged => Progress::Next(PublishObjectStep::RevalidateBeforeLink),
            PublishObjectStep::RevalidateBeforeLink => Progress::Next(PublishObjectStep::RevalidateBeforeLinkAgain),
            PublishObjectStep::RevalidateBeforeLinkAgain => Progress::Next(PublishObjectStep::Link),
            PublishObjectStep::Link => if yes {
                Progress::Next(PublishObjectStep::BindPublished)
            } else {
                Progress::Next(PublishObjectStep::ReadExisting)
            },
            PublishObjectStep::BindPublished => Progress::Next(PublishObjectStep::SyncPublished),
            PublishObjectStep::SyncPublished => Progress::Next(PublishObjectStep::SyncContainer),
            PublishObjectStep::SyncContainer => Progress::Next(PublishObjectStep::RevalidateAfterLink),
            PublishObjectStep::RevalidateAfterLink => Progress::Done(CanonicalObjectPublication::Published),
            PublishObjectStep::ReadExisting => Progress::Done(CanonicalObjectPublication::Reused),
        },
    }
}

impl PublishObjectStep {
    /// Decides what follows this step.
    pub fn after(self, reply: Result<bool, EngineError>) -> (progress: Progress<PublishObjectStep, CanonicalObjectPublication>)
        ensures
            store_steps::progress_view(progress) == publish_object_after(self, store_steps::reply_view(reply)),
    {
        let yes = match reply {
            Err(error) => {
                return Progress::Failed(error);
            },
            Ok(yes) => yes,
        };
        match self {
            PublishObjectStep::Verify => Progress::Next(PublishObjectStep::RevalidateContainers),
            PublishObjectStep::RevalidateContainers => Progress::Next(PublishObjectStep::LookUp),
            PublishObjectStep::LookUp => if yes {
                Progress::Next(PublishObjectStep::ReadExisting)
            } else {
                Progress::Next(PublishObjectStep::Create)
            },
            PublishObjectStep::Create => Progress::Next(PublishObjectStep::Restrict),
            PublishObjectStep::Restrict => Progress::Next(PublishObjectStep::Write),
            PublishObjectStep::Write => Progress::Next(PublishObjectStep::Flush),
            PublishObjectStep::Flush => Progress::Next(PublishObjectStep::Sync),
            PublishObjectStep::Sync => Progress::Next(PublishObjectStep::InspectStaged),
            PublishObjectStep::InspectStaged => Progress::Next(PublishObjectStep::RevalidateBeforeLink),
            PublishObjectStep::RevalidateBeforeLink => Progress::Next(PublishObjectStep::RevalidateBeforeLinkAgain),
            PublishObjectStep::RevalidateBeforeLinkAgain => Progress::Next(PublishObjectStep::Link),
            PublishObjectStep::Link => if yes {
                Progress::Next(PublishObjectStep::BindPublished)
            } else {
                Progress::Next(PublishObjectStep::ReadExisting)
            },
            PublishObjectStep::BindPublished => Progress::Next(PublishObjectStep::SyncPublished),
            PublishObjectStep::SyncPublished => Progress::Next(PublishObjectStep::SyncContainer),
            PublishObjectStep::SyncContainer => Progress::Next(PublishObjectStep::RevalidateAfterLink),
            PublishObjectStep::RevalidateAfterLink => Progress::Done(CanonicalObjectPublication::Published),
            PublishObjectStep::ReadExisting => Progress::Done(CanonicalObjectPublication::Reused),
        }
    }
}

/// How far publishing an object has come.
pub open spec fn publish_object_rank(step: PublishObjectStep) -> nat {
    match step {
        PublishObjectStep::Verify => 0,
        PublishObjectStep::RevalidateContainers => 1,
        PublishObjectStep::LookUp => 2,
        PublishObjectStep::Create => 3,
        PublishObjectStep::Restrict => 4,
        PublishObjectStep::Write => 5,
        PublishObjectStep::Flush => 6,
        PublishObjectStep::Sync => 7,
        PublishObjectStep::InspectStaged => 8,
        PublishObjectStep::RevalidateBeforeLink => 9,
        PublishObjectStep::RevalidateBeforeLinkAgain => 10,
        PublishObjectStep::Link => 11,
        PublishObjectStep::BindPublished => 12,
        PublishObjectStep::SyncPublished => 13,
        PublishObjectStep::SyncContainer => 14,
        PublishObjectStep::RevalidateAfterLink => 15,
        PublishObjectStep::ReadExisting => 16,
    }
}

/// Publishing an object never goes back: its bytes are verified first and durable before they
/// get a name, and the name is given at most once. An object that was there first is reused only
/// once it was read and verified, whether it was found beforehand or won the race.
pub proof fn lemma_object_is_durable_before_it_is_named(
    step: PublishObjectStep,
    reply: Result<bool, EngineError<Seq<char>, Seq<u8>>>,
)
    ensures
        publish_object_after(step, reply) matches Progress::Next(next) ==> publish_object_rank(step)
            < publish_object_rank(next),
        publish_object_after(step, reply) matches Progress::Next(next) ==> (next
            == PublishObjectStep::Link ==> step == PublishObjectStep::RevalidateBeforeLinkAgain),
        publish_object_rank(PublishObjectStep::Verify) < publish_object_rank(
            PublishObjectStep::Sync,
        ) < publish_object_rank(PublishObjectStep::Link),
        publish_object_after(step, reply) == Progress::<
            PublishObjectStep,
            CanonicalObjectPublication,
            EngineError<Seq<char>, Seq<u8>>,
        >::Done(CanonicalObjectPublication::Published) ==> step
            == PublishObjectStep::RevalidateAfterLink && reply is Ok,
        publish_object_after(step, reply) == Progress::<
            PublishObjectStep,
            CanonicalObjectPublication,
            EngineError<Seq<char>, Seq<u8>>,
        >::Done(CanonicalObjectPublication::Reused) ==> step == PublishObjectStep::ReadExisting
            && reply is Ok,
{
}

/// A step of publishing an encoded object.
#[derive(Clone, Copy, Debug, PartialEq, Eq, Structural)]
pub enum PublishEncodedStep {
    /// Verify the bytes.
    Verify,
    /// Open the store.
    OpenStore,
    /// Check the store.
    RevalidateStore,
    /// Take the publication lock.
    Lock,
    /// Check the publication lock.
    RevalidateLock,
    /// Open the directories, creating what is missing.
    OpenContainers,
    /// Publish the object: `Ok(false)` where it was there first.
    Publish,
    /// Check the publication lock for the last time.
    RevalidateLockPublished,
    /// Check the publication lock for the last time.
    RevalidateLockReused,
}

/// Starts publishing an encoded object; that needs a store that may be written.
pub fn start_publication(access: StoreAccess) -> (progress: Progress<
    PublishEncodedStep,
    CanonicalObjectPublication,
>)
    ensures
        store_steps::progress_view(progress) == store_steps::if_writable::<
            PublishEncodedStep,
            CanonicalObjectPublication,
        >(
            access,
            PublishEncodedStep::Verify,
        ),
{
    match access {
        StoreAccess::ReadWrite => Progress::Next(PublishEncodedStep::Verify),
        _ => Progress::Failed(EngineError::ReadOnlyStore),
    }
}

/// What follows a step of publishing an encoded object.
pub open spec fn publish_encoded_after(
    step: PublishEncodedStep,
    reply: Result<bool, EngineError<Seq<char>, Seq<u8>>>,
) -> Progress<PublishEncodedStep, CanonicalObjectPublication, EngineError<Seq<char>, Seq<u8>>> {
    match reply {
        Err(error) => Progress::Failed(error),
        Ok(yes) => match step {
            PublishEncodedStep::Verify => Progress::Next(PublishEncodedStep::OpenStore),
            PublishEncodedStep::OpenStore => Progress::Next(PublishEncodedStep::RevalidateStore),
            PublishEncodedStep::RevalidateStore => Progress::Next(PublishEncodedStep::Lock),
            PublishEncodedStep::Lock => Progress::Next(PublishEncodedStep::RevalidateLock),
            PublishEncodedStep::RevalidateLock => Progress::Next(PublishEncodedStep::OpenContainers),
            PublishEncodedStep::OpenContainers => Progress::Next(PublishEncodedStep::Publish),
            PublishEncodedStep::Publish => if yes {
                Progress::Next(PublishEncodedStep::RevalidateLockPublished)
            } else {
                Progress::Next(PublishEncodedStep::RevalidateLockReused)
            },
            PublishEncodedStep::RevalidateLockPublished => Progress::Done(CanonicalObjectPublication::Published),
            PublishEncodedStep::RevalidateLockReused => Progress::Done(CanonicalObjectPublication::Reused),
        },
    }
}

impl PublishEncodedStep {
    /// Decides what follows this step.
    pub fn after(self, reply: Result<bool, EngineError>) -> (progress: Progress<PublishEncodedStep, CanonicalObjectPublication>)
        ensures
            store_steps::progress_view(progress) == publish_encoded_after(self, store_steps::reply_view(reply)),
    {
        let yes = match reply {
            Err(error) => {
                return Progress::Failed(error);
            },
            Ok(yes) => yes,
        };
        match self {
            PublishEncodedStep::Verify => Progress::Next(PublishEncodedStep::OpenStore),
            PublishEncodedStep::OpenStore => Progress::Next(PublishEncodedStep::RevalidateStore),
            PublishEncodedStep::RevalidateStore => Progress::Next(PublishEncodedStep::Lock),
            PublishEncodedStep::Lock => Progress::Next(PublishEncodedStep::RevalidateLock),
            PublishEncodedStep::RevalidateLock => Progress::Next(PublishEncodedStep::OpenContainers),
            PublishEncodedStep::OpenContainers => Progress::Next(PublishEncodedStep::Publish),
            PublishEncodedStep::Publish => if yes {
                Progress::Next(PublishEncodedStep::RevalidateLockPublished)
            } else {
                Progress::Next(PublishEncodedStep::RevalidateLockReused)
            },
            PublishEncodedStep::RevalidateLockPublished => Progress::Done(CanonicalObjectPublication::Published),
            PublishEncodedStep::RevalidateLockReused => Progress::Done(CanonicalObjectPublication::Reused),
        }
    }
}

/// A step of publishing a decoded archive.
#[derive(Clone, Copy, Debug, PartialEq, Eq, Structural)]
pub enum PublishArchiveStep {
    /// Open the store.
    OpenStore,
    /// Check the store.
    RevalidateStore,
    /// Take the publication lock.
    Lock,
    /// Check the publication lock.
    RevalidateLock,
    /// Publish every object but the root tree, in order.
    PublishParts,
    /// Check the store.
    RevalidateBeforeRoot,
    /// Publish the root tree.
    PublishRoot,
    /// Check the publication lock for the last time.
    RevalidateLockLast,
    /// Check the store for the last time.
    RevalidateStoreLast,
}

/// Starts publishing a decoded archive; that needs a store that may be written.
pub fn start_archive_publication(access: StoreAccess) -> (progress: Progress<
    PublishArchiveStep,
    (),
>)
    ensures
        store_steps::progress_view(progress) == store_steps::if_writable::<
            PublishArchiveStep,
            (),
        >(
            access,
            PublishArchiveStep::OpenStore,
        ),
{
    match access {
        StoreAccess::ReadWrite => Progress::Next(PublishArchiveStep::OpenStore),
        _ => Progress::Failed(EngineError::ReadOnlyStore),
    }
}

/// What follows a step of publishing a decoded archive.
pub open spec fn publish_archive_after(
    step: PublishArchiveStep,
    reply: Result<bool, EngineError<Seq<char>, Seq<u8>>>,
) -> Progress<PublishArchiveStep, (), EngineError<Seq<char>, Seq<u8>>> {
    match reply {
        Err(error) => Progress::Failed(error),
        Ok(_) => match step {
            PublishArchiveStep::OpenStore => Progress::Next(PublishArchiveStep::RevalidateStore),
            PublishArchiveStep::RevalidateStore => Progress::Next(PublishArchiveStep::Lock),
            PublishArchiveStep::Lock => Progress::Next(PublishArchiveStep::RevalidateLock),
            PublishArchiveStep::RevalidateLock => Progress::Next(PublishArchiveStep::PublishParts),
            PublishArchiveStep::PublishParts => Progress::Next(PublishArchiveStep::RevalidateBeforeRoot),
            PublishArchiveStep::RevalidateBeforeRoot => Progress::Next(PublishArchiveStep::PublishRoot),
            PublishArchiveStep::PublishRoot => Progress::Next(PublishArchiveStep::RevalidateLockLast),
            PublishArchiveStep::RevalidateLockLast => Progress::Next(PublishArchiveStep::RevalidateStoreLast),
            PublishArchiveStep::RevalidateStoreLast => Progress::Done(()),
        },
    }
}

impl PublishArchiveStep {
    /// Decides what follows this step.
    pub fn after(self, reply: Result<bool, EngineError>) -> (progress: Progress<PublishArchiveStep, ()>)
        ensures
            store_steps::progress_view(progress) == publish_archive_after(self, store_steps::reply_view(reply)),
    {
        if let Err(error) = reply {
            return Progress::Failed(error);
        }
        match self {
            PublishArchiveStep::OpenStore => Progress::Next(PublishArchiveStep::RevalidateStore),
            PublishArchiveStep::RevalidateStore => Progress::Next(PublishArchiveStep::Lock),
            PublishArchiveStep::Lock => Progress::Next(PublishArchiveStep::RevalidateLock),
            PublishArchiveStep::RevalidateLock => Progress::Next(PublishArchiveStep::PublishParts),
            PublishArchiveStep::PublishParts => Progress::Next(PublishArchiveStep::RevalidateBeforeRoot),
            PublishArchiveStep::RevalidateBeforeRoot => Progress::Next(PublishArchiveStep::PublishRoot),
            PublishArchiveStep::PublishRoot => Progress::Next(PublishArchiveStep::RevalidateLockLast),
            PublishArchiveStep::RevalidateLockLast => Progress::Next(PublishArchiveStep::RevalidateStoreLast),
            PublishArchiveStep::RevalidateStoreLast => Progress::Done(()),
        }
    }
}

/// How far publishing an archive has come.
pub open spec fn publish_archive_rank(step: PublishArchiveStep) -> nat {
    match step {
        PublishArchiveStep::OpenStore => 0,
        PublishArchiveStep::RevalidateStore => 1,
        PublishArchiveStep::Lock => 2,
        PublishArchiveStep::RevalidateLock => 3,
        PublishArchiveStep::PublishParts => 4,
        PublishArchiveStep::RevalidateBeforeRoot => 5,
        PublishArchiveStep::PublishRoot => 6,
        PublishArchiveStep::RevalidateLockLast => 7,
        PublishArchiveStep::RevalidateStoreLast => 8,
    }
}

/// The root tree of an archive is published right after all its parts were and the store was
/// checked again; a failed part keeps the root from being published.
pub proof fn lemma_archive_root_follows_its_parts(
    step: PublishArchiveStep,
    reply: Result<bool, EngineError<Seq<char>, Seq<u8>>>,
)
    ensures
        publish_archive_after(step, reply) matches Progress::Next(next) ==> publish_archive_rank(
            next,
        ) == publish_archive_rank(step) + 1,
        reply matches Err(error) ==> publish_archive_after(step, reply) == Progress::<
            PublishArchiveStep,
            (),
            EngineError<Seq<char>, Seq<u8>>,
        >::Failed(error),
        publish_archive_after(step, reply) is Done ==> step
            == PublishArchiveStep::RevalidateStoreLast,
        publish_archive_rank(PublishArchiveStep::PublishParts) < publish_archive_rank(
            PublishArchiveStep::PublishRoot,
        ),
{
}

/// What is reported of publishing an archive that may have failed.
pub open spec fn archive_progress_view(
    progress: Progress<PublishArchiveStep, (), ArchivePublicationError>,
) -> Progress<PublishArchiveStep, (), ArchivePublicationError<Seq<char>, Seq<u8>>> {
    match progress {
        Progress::Next(step) => Progress::Next(step),
        Progress::Done(result) => Progress::Done(result),
        Progress::Failed(error) => Progress::Failed(error@),
    }
}

/// A failure of the store, told as one of publishing an archive.
pub open spec fn as_archive_progress(
    progress: Progress<PublishArchiveStep, (), EngineError<Seq<char>, Seq<u8>>>,
) -> Progress<PublishArchiveStep, (), ArchivePublicationError<Seq<char>, Seq<u8>>> {
    match progress {
        Progress::Next(step) => Progress::Next(step),
        Progress::Done(result) => Progress::Done(result),
        Progress::Failed(source) => Progress::Failed(ArchivePublicationError::Store { source }),
    }
}

/// Tells a failure of the store as one of publishing an archive.
pub fn archive_progress(progress: Progress<PublishArchiveStep, ()>) -> (told: Progress<
    PublishArchiveStep,
    (),
    ArchivePublicationError,
>)
    ensures
        archive_progress_view(told) == as_archive_progress(store_steps::progress_view(progress)),
{
    match progress {
        Progress::Next(step) => Progress::Next(step),
        Progress::Done(result) => Progress::Done(result),
        Progress::Failed(source) => Progress::Failed(ArchivePublicationError::Store { source }),
    }
}

/// Requires that a decoded archive has the reviewed root.
pub fn require_archive_root(expected: &str, actual: &str) -> (checked: Result<
    (),
    ArchivePublicationError,
>)
    ensures
        match checked {
            Ok(_) => expected@ == actual@,
            Err(error) => expected@ != actual@ && error@
                == (ArchivePublicationError::UnexpectedRoot::<Seq<char>, Seq<u8>> {
                expected: expected@,
                actual: actual@,
            }),
        },
{
    if text_equal(expected, actual) {
        Ok(())
    } else {
        Err(
            ArchivePublicationError::UnexpectedRoot {
                expected: expected.to_owned(),
                actual: actual.to_owned(),
            },
        )
    }
}

/// Where publishing an archive starts, given the root that decoding gave or why it failed, and
/// the reviewed root where there is one.
pub open spec fn decoded_archive_start(
    decoded: Result<Seq<char>, Seq<char>>,
    expected: Option<Seq<char>>,
    access: StoreAccess,
) -> Progress<PublishArchiveStep, (), ArchivePublicationError<Seq<char>, Seq<u8>>> {
    match decoded {
        Err(detail) => Progress::Failed(ArchivePublicationError::Decode { detail }),
        Ok(actual) => if expected is Some && expected->0 != actual {
            Progress::Failed(
                ArchivePublicationError::UnexpectedRoot { expected: expected->0, actual },
            )
        } else {
            as_archive_progress(
                store_steps::if_writable::<PublishArchiveStep, ()>(
                    access,
                    PublishArchiveStep::OpenStore,
                ),
            )
        },
    }
}

/// Starts publishing an archive: it must have been decoded, and have the reviewed root where
/// there is one, before the store is touched.
pub fn start_decoded_archive(
    decoded: Result<&str, String>,
    expected: Option<&str>,
    access: StoreAccess,
) -> (progress: Progress<PublishArchiveStep, (), ArchivePublicationError>)
    ensures
        archive_progress_view(progress) == decoded_archive_start(
            match decoded {
                Ok(actual) => Ok(actual@),
                Err(detail) => Err(detail@),
            },
            match expected {
                Some(root) => Some(root@),
                None => None,
            },
            access,
        ),
{
    let actual: &str = match decoded {
        Err(detail) => {
            return Progress::Failed(ArchivePublicationError::Decode { detail });
        },
        Ok(actual) => actual,
    };
    if let Some(root) = expected {
        if let Err(error) = require_archive_root(root, actual) {
            return Progress::Failed(error);
        }
    }
    archive_progress(start_archive_publication(access))
}

/// An archive that was not decoded, or whose root is not the reviewed one, is refused before
/// the first step, so nothing of it reaches the store.
pub proof fn lemma_unreviewed_archive_is_not_published(
    decoded: Result<Seq<char>, Seq<char>>,
    expected: Option<Seq<char>>,
    access: StoreAccess,
)
    ensures
        decoded_archive_start(decoded, expected, access) is Next ==> {
            &&& decoded is Ok
            &&& expected matches Some(root) ==> decoded == Ok::<Seq<char>, Seq<char>>(root)
            &&& access == StoreAccess::ReadWrite
        },
        !(decoded_archive_start(decoded, expected, access) is Done),
{
}

/// One canonical object to publish.
#[derive(Debug)]
pub struct ObjectName<T = String> {
    pub kind: CanonicalObjectKind,
    pub digest: T,
}

impl View for ObjectName<String> {
    type V = ObjectName<Seq<char>>;

    open spec fn view(&self) -> ObjectName<Seq<char>> {
        ObjectName { kind: self.kind, digest: self.digest@ }
    }
}

/// Objects of one kind, in order.
pub open spec fn named(kind: CanonicalObjectKind, digests: Seq<Seq<char>>) -> Seq<
    ObjectName<Seq<char>>,
> {
    digests.map_values(|digest: Seq<char>| ObjectName { kind, digest })
}

/// The digests that differ from one, in order.
pub open spec fn all_but(digests: Seq<Seq<char>>, root: Seq<char>) -> Seq<Seq<char>>
    decreases digests.len(),
{
    if digests.len() == 0 {
        Seq::empty()
    } else if digests.last() == root {
        all_but(digests.drop_last(), root)
    } else {
        all_but(digests.drop_last(), root).push(digests.last())
    }
}

/// The parts of an archive, in the order in which they are published: files, symbolic links,
/// and every tree but the root.
pub open spec fn archive_part_names(
    files: Seq<Seq<char>>,
    symlinks: Seq<Seq<char>>,
    trees: Seq<Seq<char>>,
    root: Seq<char>,
) -> Seq<ObjectName<Seq<char>>> {
    named(CanonicalObjectKind::File, files) + named(CanonicalObjectKind::Symlink, symlinks)
        + named(CanonicalObjectKind::Tree, all_but(trees, root))
}

fn push_named(
    names: &mut Vec<ObjectName>,
    kind: CanonicalObjectKind,
    digests: &Vec<String>,
    skipped: Option<&str>,
)
    ensures
        seqs::views(final(names)@) == seqs::views(old(names)@) + named(
            kind,
            match skipped {
                Some(root) => all_but(seqs::views(digests@), root@),
                None => seqs::views(digests@),
            },
        ),
{
    let ghost all = seqs::views(digests@);
    let ghost start = seqs::views(names@);
    let ghost chosen = |part: Seq<Seq<char>>| -> Seq<Seq<char>> {
        match skipped {
            Some(root) => all_but(part, root@),
            None => part,
        }
    };
    let mut i: usize = 0;
    proof {
        assert(all.take(0) =~= Seq::<Seq<char>>::empty());
        assert(chosen(all.take(0)) =~= Seq::<Seq<char>>::empty());
        assert(seqs::views(names@) =~= start + named(kind, chosen(all.take(0))));
    }
    while i < digests.len()
        invariant
            i <= digests.len(),
            all == seqs::views(digests@),
            chosen == (|part: Seq<Seq<char>>| -> Seq<Seq<char>> {
                match skipped {
                    Some(root) => all_but(part, root@),
                    None => part,
                }
            }),
            seqs::views(names@) == start + named(kind, chosen(all.take(i as int))),
        decreases digests.len() - i,
    {
        let digest = digests[i].as_str();
        let ghost before = names@;
        proof {
            assert(all.take(i + 1).drop_last() =~= all.take(i as int));
            assert(all.take(i + 1).last() == digest@);
            assert(all.take(i + 1) =~= all.take(i as int).push(digest@));
        }
        let skip = match skipped {
            Some(root) => text_equal(digest, root),
            None => false,
        };
        if !skip {
            names.push(ObjectName { kind, digest: digest.to_owned() });
            proof {
                let part = chosen(all.take(i as int));
                assert(chosen(all.take(i + 1)) =~= part.push(digest@));
                assert(named(kind, part.push(digest@)) =~= named(kind, part).push(
                    ObjectName { kind, digest: digest@ },
                ));
                assert(seqs::views(names@) =~= seqs::views(before).push(
                    ObjectName { kind, digest: digest@ },
                ));
                assert(seqs::views(names@) =~= start + named(kind, chosen(all.take(i + 1))));
            }
        }
        i = i + 1;
    }
    proof {
        assert(all.take(all.len() as int) =~= all);
    }
}

/// Returns the parts of an archive in the order in which they are published. The root tree is
/// not among them: it follows when all of them are in the store.
pub fn archive_parts(
    files: &Vec<String>,
    symlinks: &Vec<String>,
    trees: &Vec<String>,
    root: &str,
) -> (parts: Vec<ObjectName>)
    ensures
        seqs::views(parts@) == archive_part_names(
            seqs::views(files@),
            seqs::views(symlinks@),
            seqs::views(trees@),
            root@,
        ),
{
    let mut parts: Vec<ObjectName> = Vec::new();
    assert(seqs::views(parts@) =~= Seq::<ObjectName<Seq<char>>>::empty());
    push_named(&mut parts, CanonicalObjectKind::File, files, None);
    push_named(&mut parts, CanonicalObjectKind::Symlink, symlinks, None);
    push_named(&mut parts, CanonicalObjectKind::Tree, trees, Some(root));
    assert(seqs::views(parts@) =~= archive_part_names(
        seqs::views(files@),
        seqs::views(symlinks@),
        seqs::views(trees@),
        root@,
    ));
    parts
}

proof fn lemma_all_but(digests: Seq<Seq<char>>, root: Seq<char>)
    ensures
        forall|digest: Seq<char>| #[trigger]
            all_but(digests, root).contains(digest) <==> digests.contains(digest) && digest != root,
    decreases digests.len(),
{
    if digests.len() > 0 {
        let head = digests.drop_last();
        let last = digests.last();
        lemma_all_but(head, root);
        let kept = all_but(digests, root);
        assert forall|digest: Seq<char>| #[trigger] kept.contains(digest) <==> digests.contains(
            digest,
        ) && digest != root by {
            let before = all_but(head, root);
            assert(before.contains(digest) <==> head.contains(digest) && digest != root);
            if digests.contains(digest) && digest != root {
                let i = choose|i: int| 0 <= i < digests.len() && digests[i] == digest;
                if i < head.len() {
                    assert(head[i] == digest);
                    let k = choose|k: int| 0 <= k < before.len() && before[k] == digest;
                    assert(kept[k] == digest);
                } else {
                    assert(kept[kept.len() - 1] == digest);
                }
            }
            if kept.contains(digest) {
                let k = choose|k: int| 0 <= k < kept.len() && kept[k] == digest;
                if k < before.len() {
                    assert(before[k] == digest);
                    let i = choose|i: int| 0 <= i < head.len() && head[i] == digest;
                    assert(digests[i] == digest);
                } else {
                    assert(digests[digests.len() - 1] == digest);
                }
            }
        }
    }
}

/// The root tree is never among the parts of its archive, and every other tree is.
pub proof fn lemma_archive_root_is_not_a_part(
    files: Seq<Seq<char>>,
    symlinks: Seq<Seq<char>>,
    trees: Seq<Seq<char>>,
    root: Seq<char>,
    digest: Seq<char>,
)
    ensures
        !archive_part_names(files, symlinks, trees, root).contains(
            ObjectName { kind: CanonicalObjectKind::Tree, digest: root },
        ),
        trees.contains(digest) && digest != root ==> archive_part_names(
            files,
            symlinks,
            trees,
            root,
        ).contains(ObjectName { kind: CanonicalObjectKind::Tree, digest }),
{
    lemma_all_but(trees, root);
    let kept = all_but(trees, root);
    let parts = archive_part_names(files, symlinks, trees, root);
    let tail = files.len() + symlinks.len();
    let name = ObjectName { kind: CanonicalObjectKind::Tree, digest: root };
    if parts.contains(name) {
        let i = choose|i: int| 0 <= i < parts.len() && parts[i] == name;
        if i >= tail {
            assert(parts[i].digest == kept[i - tail]);
            assert(kept.contains(root));
        }
    }
    if trees.contains(digest) && digest != root {
        assert(kept.contains(digest));
        let k = choose|k: int| 0 <= k < kept.len() && kept[k] == digest;
        assert(parts[tail + k] == ObjectName { kind: CanonicalObjectKind::Tree, digest });
    }
}

/// A step of publishing a pack.
#[derive(Clone, Copy, Debug, PartialEq, Eq, Structural)]
pub enum PublishPackStep {
    /// Compute the digest of the files and compare it.
    CheckContent,
    /// Open the store.
    OpenStore,
    /// Check the store.
    RevalidateStore,
    /// Take the publication lock.
    Lock,
    /// Check the publication lock.
    RevalidateLock,
    /// Open the directories, creating what is missing.
    OpenContainers,
    /// Check the directories.
    RevalidateContainers,
    /// Look for the pack in one piece: `Ok(false)` where it does not exist.
    LookUpPack,
    /// Read and verify the pack in one piece.
    ReadExisting,
    /// Make the pack in one piece durable.
    SyncExisting,
    /// Look for the manifest: `Ok(false)` where it does not exist.
    LookUpManifest,
    /// Check the manifest and decode it.
    CheckManifest,
    /// Publish the members.
    PublishMembers,
    /// Create a file without a name.
    CreateManifest,
    /// Make the file immutable.
    Restrict,
    /// Write the manifest.
    Write,
    /// Flush the file.
    Flush,
    /// Make the file durable.
    Sync,
    /// Check the directories.
    RevalidateBeforeLink,
    /// Check the directories once more.
    RevalidateBeforeLinkAgain,
    /// Give the file its name: `Ok(false)` where the name is taken.
    Link,
    /// Make the name durable.
    SyncManifests,
    /// Check the directories for the last time.
    RevalidateAfterLink,
    /// Check the publication lock for the last time.
    RevalidateLockPublished,
    /// Check the publication lock for the last time.
    RevalidateLockReused,
}

/// Starts publishing a pack; that needs a store that may be written. Files that were verified
/// already are not verified again.
pub fn start_pack_publication(access: StoreAccess, verified: bool) -> (progress: Progress<
    PublishPackStep,
    PackObjectPublication,
>)
    ensures
        store_steps::progress_view(progress) == store_steps::if_writable::<
            PublishPackStep,
            PackObjectPublication,
        >(
            access,
            if verified {
                PublishPackStep::OpenStore
            } else {
                PublishPackStep::CheckContent
            },
        ),
{
    match access {
        StoreAccess::ReadWrite => {
            if verified {
                Progress::Next(PublishPackStep::OpenStore)
            } else {
                Progress::Next(PublishPackStep::CheckContent)
            }
        },
        _ => Progress::Failed(EngineError::ReadOnlyStore),
    }
}

/// What follows a step of publishing a pack.
pub open spec fn publish_pack_after(
    step: PublishPackStep,
    reply: Result<bool, EngineError<Seq<char>, Seq<u8>>>,
    verified: bool,
) -> Progress<PublishPackStep, PackObjectPublication, EngineError<Seq<char>, Seq<u8>>> {
    match reply {
        Err(error) => Progress::Failed(error),
        Ok(yes) => match step {
            PublishPackStep::CheckContent => Progress::Next(PublishPackStep::OpenStore),
            PublishPackStep::OpenStore => Progress::Next(PublishPackStep::RevalidateStore),
            PublishPackStep::RevalidateStore => Progress::Next(PublishPackStep::Lock),
            PublishPackStep::Lock => Progress::Next(PublishPackStep::RevalidateLock),
            PublishPackStep::RevalidateLock => Progress::Next(PublishPackStep::OpenContainers),
            PublishPackStep::OpenContainers => Progress::Next(PublishPackStep::RevalidateContainers),
            PublishPackStep::RevalidateContainers => Progress::Next(PublishPackStep::LookUpPack),
            PublishPackStep::LookUpPack => if yes {
                if verified {
                    Progress::Next(PublishPackStep::SyncExisting)
                } else {
                    Progress::Next(PublishPackStep::ReadExisting)
                }
            } else {
                Progress::Next(PublishPackStep::LookUpManifest)
            },
            PublishPackStep::ReadExisting => Progress::Next(PublishPackStep::SyncExisting),
            PublishPackStep::SyncExisting => Progress::Next(PublishPackStep::RevalidateLockReused),
            PublishPackStep::LookUpManifest => if yes {
                Progress::Next(PublishPackStep::CheckManifest)
            } else {
                Progress::Next(PublishPackStep::PublishMembers)
            },
            PublishPackStep::CheckManifest => Progress::Next(PublishPackStep::RevalidateLockReused),
            PublishPackStep::PublishMembers => Progress::Next(PublishPackStep::CreateManifest),
            PublishPackStep::CreateManifest => Progress::Next(PublishPackStep::Restrict),
            PublishPackStep::Restrict => Progress::Next(PublishPackStep::Write),
            PublishPackStep::Write => Progress::Next(PublishPackStep::Flush),
            PublishPackStep::Flush => Progress::Next(PublishPackStep::Sync),
            PublishPackStep::Sync => Progress::Next(PublishPackStep::RevalidateBeforeLink),
            PublishPackStep::RevalidateBeforeLink => if verified {
                    Progress::Next(PublishPackStep::Link)
                } else {
                    Progress::Next(PublishPackStep::RevalidateBeforeLinkAgain)
                },
            PublishPackStep::RevalidateBeforeLinkAgain => Progress::Next(PublishPackStep::Link),
            PublishPackStep::Link => if yes {
                Progress::Next(PublishPackStep::SyncManifests)
            } else {
                Progress::Next(PublishPackStep::RevalidateLockReused)
            },
            PublishPackStep::SyncManifests => Progress::Next(PublishPackStep::RevalidateAfterLink),
            PublishPackStep::RevalidateAfterLink => Progress::Next(PublishPackStep::RevalidateLockPublished),
            PublishPackStep::RevalidateLockPublished => Progress::Done(PackObjectPublication::Published),
            PublishPackStep::RevalidateLockReused => Progress::Done(PackObjectPublication::Reused),
        },
    }
}

impl PublishPackStep {
    /// Decides what follows this step.
    pub fn after(self, reply: Result<bool, EngineError>, verified: bool) -> (progress: Progress<PublishPackStep, PackObjectPublication>)
        ensures
            store_steps::progress_view(progress) == publish_pack_after(self, store_steps::reply_view(reply), verified),
    {
        let yes = match reply {
            Err(error) => {
                return Progress::Failed(error);
            },
            Ok(yes) => yes,
        };
        match self {
            PublishPackStep::CheckContent => Progress::Next(PublishPackStep::OpenStore),
            PublishPackStep::OpenStore => Progress::Next(PublishPackStep::RevalidateStore),
            PublishPackStep::RevalidateStore => Progress::Next(PublishPackStep::Lock),
            PublishPackStep::Lock => Progress::Next(PublishPackStep::RevalidateLock),
            PublishPackStep::RevalidateLock => Progress::Next(PublishPackStep::OpenContainers),
            PublishPackStep::OpenContainers => Progress::Next(PublishPackStep::RevalidateContainers),
            PublishPackStep::RevalidateContainers => Progress::Next(PublishPackStep::LookUpPack),
            PublishPackStep::LookUpPack => if yes {
                if verified {
                    Progress::Next(PublishPackStep::SyncExisting)
                } else {
                    Progress::Next(PublishPackStep::ReadExisting)
                }
            } else {
                Progress::Next(PublishPackStep::LookUpManifest)
            },
            PublishPackStep::ReadExisting => Progress::Next(PublishPackStep::SyncExisting),
            PublishPackStep::SyncExisting => Progress::Next(PublishPackStep::RevalidateLockReused),
            PublishPackStep::LookUpManifest => if yes {
                Progress::Next(PublishPackStep::CheckManifest)
            } else {
                Progress::Next(PublishPackStep::PublishMembers)
            },
            PublishPackStep::CheckManifest => Progress::Next(PublishPackStep::RevalidateLockReused),
            PublishPackStep::PublishMembers => Progress::Next(PublishPackStep::CreateManifest),
            PublishPackStep::CreateManifest => Progress::Next(PublishPackStep::Restrict),
            PublishPackStep::Restrict => Progress::Next(PublishPackStep::Write),
            PublishPackStep::Write => Progress::Next(PublishPackStep::Flush),
            PublishPackStep::Flush => Progress::Next(PublishPackStep::Sync),
            PublishPackStep::Sync => Progress::Next(PublishPackStep::RevalidateBeforeLink),
            PublishPackStep::RevalidateBeforeLink => if verified {
                    Progress::Next(PublishPackStep::Link)
                } else {
                    Progress::Next(PublishPackStep::RevalidateBeforeLinkAgain)
                },
            PublishPackStep::RevalidateBeforeLinkAgain => Progress::Next(PublishPackStep::Link),
            PublishPackStep::Link => if yes {
                Progress::Next(PublishPackStep::SyncManifests)
            } else {
                Progress::Next(PublishPackStep::RevalidateLockReused)
            },
            PublishPackStep::SyncManifests => Progress::Next(PublishPackStep::RevalidateAfterLink),
            PublishPackStep::RevalidateAfterLink => Progress::Next(PublishPackStep::RevalidateLockPublished),
            PublishPackStep::RevalidateLockPublished => Progress::Done(PackObjectPublication::Published),
            PublishPackStep::RevalidateLockReused => Progress::Done(PackObjectPublication::Reused),
        }
    }
}

/// How far publishing a pack has come.
pub open spec fn publish_pack_rank(step: PublishPackStep) -> nat {
    match step {
        PublishPackStep::CheckContent => 0,
        PublishPackStep::OpenStore => 1,
        PublishPackStep::RevalidateStore => 2,
        PublishPackStep::Lock => 3,
        PublishPackStep::RevalidateLock => 4,
        PublishPackStep::OpenContainers => 5,
        PublishPackStep::RevalidateContainers => 6,
        PublishPackStep::LookUpPack => 7,
        PublishPackStep::ReadExisting => 8,
        PublishPackStep::SyncExisting => 9,
        PublishPackStep::LookUpManifest => 10,
        PublishPackStep::CheckManifest => 11,
        PublishPackStep::PublishMembers => 12,
        PublishPackStep::CreateManifest => 13,
        PublishPackStep::Restrict => 14,
        PublishPackStep::Write => 15,
        PublishPackStep::Flush => 16,
        PublishPackStep::Sync => 17,
        PublishPackStep::RevalidateBeforeLink => 18,
        PublishPackStep::RevalidateBeforeLinkAgain => 19,
        PublishPackStep::Link => 20,
        PublishPackStep::SyncManifests => 21,
        PublishPackStep::RevalidateAfterLink => 22,
        PublishPackStep::RevalidateLockPublished => 23,
        PublishPackStep::RevalidateLockReused => 24,
    }
}

/// Publishing a pack never goes back: its members are in the store and its manifest is durable
/// before the manifest gets its name, so no crash shows a pack in part; and a pack is called
/// published only once its name is durable.
pub proof fn lemma_pack_members_precede_their_manifest(
    step: PublishPackStep,
    reply: Result<bool, EngineError<Seq<char>, Seq<u8>>>,
    verified: bool,
)
    ensures
        publish_pack_after(step, reply, verified) matches Progress::Next(next)
            ==> publish_pack_rank(step) < publish_pack_rank(next),
        publish_pack_rank(PublishPackStep::PublishMembers) < publish_pack_rank(
            PublishPackStep::Sync,
        ) < publish_pack_rank(PublishPackStep::Link),
        publish_pack_after(step, reply, verified) matches Progress::Next(next) ==> (next
            == PublishPackStep::CreateManifest ==> step == PublishPackStep::PublishMembers),
        publish_pack_after(step, reply, verified) matches Progress::Next(next) ==> (next
            == PublishPackStep::Link ==> step == PublishPackStep::RevalidateBeforeLink || step
            == PublishPackStep::RevalidateBeforeLinkAgain),
        publish_pack_after(step, reply, verified) matches Progress::Done(outcome) ==> (outcome
            == PackObjectPublication::Published ==> step
            == PublishPackStep::RevalidateLockPublished && reply is Ok),
{
}

/// Each step of publishing an object comes after the one that it rests on, and none is left out.
/// A failed step ends it.
pub proof fn lemma_object_steps_follow_one_another(
    step: PublishObjectStep,
    reply: Result<bool, EngineError<Seq<char>, Seq<u8>>>,
)
    ensures
        match publish_object_after(step, reply) {
            Progress::Next(next) => match next {
                PublishObjectStep::Verify => false,
                PublishObjectStep::RevalidateContainers => step is Verify && reply is Ok,
                PublishObjectStep::LookUp => step is RevalidateContainers && reply is Ok,
                PublishObjectStep::Create => step is LookUp && (reply matches Ok(yes) && !yes),
                PublishObjectStep::Restrict => step is Create && reply is Ok,
                PublishObjectStep::Write => step is Restrict && reply is Ok,
                PublishObjectStep::Flush => step is Write && reply is Ok,
                PublishObjectStep::Sync => step is Flush && reply is Ok,
                PublishObjectStep::InspectStaged => step is Sync && reply is Ok,
                PublishObjectStep::RevalidateBeforeLink => step is InspectStaged && reply is Ok,
                PublishObjectStep::RevalidateBeforeLinkAgain => step is RevalidateBeforeLink
                    && reply is Ok,
                PublishObjectStep::Link => step is RevalidateBeforeLinkAgain && reply is Ok,
                PublishObjectStep::BindPublished => step is Link && (reply matches Ok(yes) && yes),
                PublishObjectStep::SyncPublished => step is BindPublished && reply is Ok,
                PublishObjectStep::SyncContainer => step is SyncPublished && reply is Ok,
                PublishObjectStep::RevalidateAfterLink => step is SyncContainer && reply is Ok,
                PublishObjectStep::ReadExisting => (step is LookUp && (reply matches Ok(yes)
                    && yes)) || (step is Link && (reply matches Ok(yes) && !yes)),
            },
            Progress::Done(CanonicalObjectPublication::Published) => step is RevalidateAfterLink
                && reply is Ok,
            Progress::Done(CanonicalObjectPublication::Reused) => step is ReadExisting
                && reply is Ok,
            Progress::Failed(error) => reply == Err::<bool, EngineError<Seq<char>, Seq<u8>>>(error),
        },
{
}

/// Each step of publishing an encoded object comes after the one that it rests on, and none is
/// left out. A failed step ends it.
pub proof fn lemma_encoded_object_steps_follow_one_another(
    step: PublishEncodedStep,
    reply: Result<bool, EngineError<Seq<char>, Seq<u8>>>,
)
    ensures
        match publish_encoded_after(step, reply) {
            Progress::Next(next) => match next {
                PublishEncodedStep::Verify => false,
                PublishEncodedStep::OpenStore => step is Verify && reply is Ok,
                PublishEncodedStep::RevalidateStore => step is OpenStore && reply is Ok,
                PublishEncodedStep::Lock => step is RevalidateStore && reply is Ok,
                PublishEncodedStep::RevalidateLock => step is Lock && reply is Ok,
                PublishEncodedStep::OpenContainers => step is RevalidateLock && reply is Ok,
                PublishEncodedStep::Publish => step is OpenContainers && reply is Ok,
                PublishEncodedStep::RevalidateLockPublished => step is Publish
                    && (reply matches Ok(yes) && yes),
                PublishEncodedStep::RevalidateLockReused => step is Publish
                    && (reply matches Ok(yes) && !yes),
            },
            Progress::Done(CanonicalObjectPublication::Published) => step is RevalidateLockPublished
                && reply is Ok,
            Progress::Done(CanonicalObjectPublication::Reused) => step is RevalidateLockReused
                && reply is Ok,
            Progress::Failed(error) => reply == Err::<bool, EngineError<Seq<char>, Seq<u8>>>(error),
        },
{
}

/// Each step of publishing an archive comes after the one that it rests on, and none is left out.
/// A failed step ends it.
pub proof fn lemma_archive_steps_follow_one_another(
    step: PublishArchiveStep,
    reply: Result<bool, EngineError<Seq<char>, Seq<u8>>>,
)
    ensures
        match publish_archive_after(step, reply) {
            Progress::Next(next) => match next {
                PublishArchiveStep::OpenStore => false,
                PublishArchiveStep::RevalidateStore => step is OpenStore && reply is Ok,
                PublishArchiveStep::Lock => step is RevalidateStore && reply is Ok,
                PublishArchiveStep::RevalidateLock => step is Lock && reply is Ok,
                PublishArchiveStep::PublishParts => step is RevalidateLock && reply is Ok,
                PublishArchiveStep::RevalidateBeforeRoot => step is PublishParts && reply is Ok,
                PublishArchiveStep::PublishRoot => step is RevalidateBeforeRoot && reply is Ok,
                PublishArchiveStep::RevalidateLockLast => step is PublishRoot && reply is Ok,
                PublishArchiveStep::RevalidateStoreLast => step is RevalidateLockLast
                    && reply is Ok,
            },
            Progress::Done(_) => step is RevalidateStoreLast && reply is Ok,
            Progress::Failed(error) => reply == Err::<bool, EngineError<Seq<char>, Seq<u8>>>(error),
        },
{
}

/// Each step of publishing a pack comes after the one that it rests on, and none is left out; what
/// was judged before is neither read back nor looked at twice before it gets its name. A failed
/// step ends it.
pub proof fn lemma_pack_steps_follow_one_another(
    step: PublishPackStep,
    reply: Result<bool, EngineError<Seq<char>, Seq<u8>>>,
    verified: bool,
)
    ensures
        match publish_pack_after(step, reply, verified) {
            Progress::Next(next) => match next {
                PublishPackStep::CheckContent => false,
                PublishPackStep::OpenStore => step is CheckContent && reply is Ok,
                PublishPackStep::RevalidateStore => step is OpenStore && reply is Ok,
                PublishPackStep::Lock => step is RevalidateStore && reply is Ok,
                PublishPackStep::RevalidateLock => step is Lock && reply is Ok,
                PublishPackStep::OpenContainers => step is RevalidateLock && reply is Ok,
                PublishPackStep::RevalidateContainers => step is OpenContainers && reply is Ok,
                PublishPackStep::LookUpPack => step is RevalidateContainers && reply is Ok,
                PublishPackStep::ReadExisting => !verified && step is LookUpPack
                    && (reply matches Ok(yes) && yes),
                PublishPackStep::SyncExisting => (verified && step is LookUpPack
                    && (reply matches Ok(yes) && yes)) || (step is ReadExisting && reply is Ok),
                PublishPackStep::LookUpManifest => step is LookUpPack && (reply matches Ok(yes)
                    && !yes),
                PublishPackStep::CheckManifest => step is LookUpManifest && (reply matches Ok(yes)
                    && yes),
                PublishPackStep::PublishMembers => step is LookUpManifest && (reply matches Ok(yes)
                    && !yes),
                PublishPackStep::CreateManifest => step is PublishMembers && reply is Ok,
                PublishPackStep::Restrict => step is CreateManifest && reply is Ok,
                PublishPackStep::Write => step is Restrict && reply is Ok,
                PublishPackStep::Flush => step is Write && reply is Ok,
                PublishPackStep::Sync => step is Flush && reply is Ok,
                PublishPackStep::RevalidateBeforeLink => step is Sync && reply is Ok,
                PublishPackStep::RevalidateBeforeLinkAgain => !verified
                    && step is RevalidateBeforeLink && reply is Ok,
                PublishPackStep::Link => (verified && step is RevalidateBeforeLink && reply is Ok)
                    || (step is RevalidateBeforeLinkAgain && reply is Ok),
                PublishPackStep::SyncManifests => step is Link && (reply matches Ok(yes) && yes),
                PublishPackStep::RevalidateAfterLink => step is SyncManifests && reply is Ok,
                PublishPackStep::RevalidateLockPublished => step is RevalidateAfterLink
                    && reply is Ok,
                PublishPackStep::RevalidateLockReused => (step is SyncExisting && reply is Ok)
                    || (step is CheckManifest && reply is Ok) || (step is Link
                    && (reply matches Ok(yes) && !yes)),
            },
            Progress::Done(PackObjectPublication::Published) => step is RevalidateLockPublished
                && reply is Ok,
            Progress::Done(PackObjectPublication::Reused) => step is RevalidateLockReused
                && reply is Ok,
            Progress::Failed(error) => reply == Err::<bool, EngineError<Seq<char>, Seq<u8>>>(error),
        },
{
}

/// Each step of opening a container comes after the one that it rests on, and none is left out; it
/// is created and made durable where that was asked for. A failed step ends it.
pub proof fn lemma_container_steps_follow_one_another(
    step: ContainerStep,
    reply: Result<bool, EngineError<Seq<char>, Seq<u8>>>,
    create: bool,
)
    ensures
        match container_after(step, reply, create) {
            Progress::Next(next) => match next {
                ContainerStep::Observe => false,
                ContainerStep::Create => create && step is Observe && (reply matches Ok(yes)
                    && !yes),
                ContainerStep::ObserveCreated => step is Create && reply is Ok,
                ContainerStep::Open => (step is Observe && (reply matches Ok(yes) && yes))
                    || (step is ObserveCreated && reply is Ok),
                ContainerStep::InspectOpened => step is Open && reply is Ok,
                ContainerStep::SyncContainer => create && step is InspectOpened && reply is Ok,
                ContainerStep::SyncParent => step is SyncContainer && reply is Ok,
            },
            Progress::Done(true) => (!create && step is InspectOpened && reply is Ok)
                || (step is SyncParent && reply is Ok),
            Progress::Done(false) => !create && step is Observe && (reply matches Ok(yes) && !yes),
            Progress::Failed(error) => reply == Err::<bool, EngineError<Seq<char>, Seq<u8>>>(error),
        },
{
}

/// The parts of an archive are its files, its symbolic links and its trees but for the root, each
/// under its own kind, and nothing else.
pub proof fn lemma_archive_parts_are_all_but_the_root(
    files: Seq<Seq<char>>,
    symlinks: Seq<Seq<char>>,
    trees: Seq<Seq<char>>,
    root: Seq<char>,
    name: ObjectName<Seq<char>>,
)
    ensures
        archive_part_names(files, symlinks, trees, root).contains(name) <==> match name.kind {
            CanonicalObjectKind::File => files.contains(name.digest),
            CanonicalObjectKind::Symlink => symlinks.contains(name.digest),
            CanonicalObjectKind::Tree => trees.contains(name.digest) && name.digest != root,
        },
{
    let parts = archive_part_names(files, symlinks, trees, root);
    let rest = all_but(trees, root);
    lemma_all_but(trees, root);
    assert(rest.contains(name.digest) <==> trees.contains(name.digest) && name.digest != root);
    if parts.contains(name) {
        let i = parts.index_of(name);
        if i < files.len() {
            assert(parts[i].digest == files[i]);
        } else if i < files.len() + symlinks.len() {
            assert(parts[i].digest == symlinks[i - files.len()]);
        } else {
            assert(parts[i].digest == rest[i - files.len() - symlinks.len()]);
        }
    }
    match name.kind {
        CanonicalObjectKind::File => {
            if files.contains(name.digest) {
                assert(parts[files.index_of(name.digest)] == name);
            }
        },
        CanonicalObjectKind::Symlink => {
            if symlinks.contains(name.digest) {
                assert(parts[files.len() + symlinks.index_of(name.digest)] == name);
            }
        },
        CanonicalObjectKind::Tree => {
            if rest.contains(name.digest) {
                assert(parts[files.len() + symlinks.len() + rest.index_of(name.digest)] == name);
            }
        },
    }
}

} // verus!
