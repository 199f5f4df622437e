//! Reading an immutable object while others may change the store.
//!
//! The object is observed, opened and read; then its binding is checked, and where it changed,
//! reading starts over. Canonical objects are verified between two checks of their binding,
//! packs while they are read.

use vstd::prelude::*;

use crate::error::{CanonicalObjectIssue, EngineError};
use crate::objects;
use crate::objects::{
    ensure_object_bound, validate_object_stat, verify_canonical, ObjectFlavor, ObjectOperation,
    ObjectTarget, ObjectVerdict,
};
use crate::stat;
use crate::stat::{FileStat, HostErrorKind, HostFailure};
use crate::state_root::io_error;
use crate::store_steps::Progress;

verus! {

/// How often reading is tried.
pub const MAX_READ_ATTEMPTS: u8 = 3;

/// A step of reading an object, with the number of the attempt; `E` is the type of errors.
#[derive(Debug)]
pub enum ReadStep<E = EngineError> {
    /// Look at the object without following links.
    Observe { attempt: u8 },
    /// Open the object.
    Open { attempt: u8, observed: FileStat },
    /// Look at what was opened.
    InspectOpened { attempt: u8, observed: FileStat },
    /// Read the object.
    Read { attempt: u8, opened: FileStat },
    /// Check the binding after so many bytes were read.
    BindRead { attempt: u8, opened: FileStat, length: u64 },
    /// Let the strict decoder judge the bytes.
    Verify { attempt: u8, opened: FileStat },
    /// Check the binding after the bytes were judged.
    BindVerified { attempt: u8, opened: FileStat, problem: Option<E> },
    /// Check the directories of the object.
    RevalidateContainers { attempt: u8, opened: FileStat, problem: Option<E> },
    /// Make the object durable.
    SyncObject { attempt: u8, opened: FileStat },
    /// Make its name durable.
    SyncContainer { attempt: u8, opened: FileStat },
    /// Check the binding after that.
    BindSynced { attempt: u8, opened: FileStat },
    /// Check the directories of the object for the last time.
    RevalidateLast { attempt: u8 },
}

/// The problem found, as contracts speak of it.
pub open spec fn problem_view(problem: Option<EngineError>) -> Option<
    EngineError<Seq<char>, Seq<u8>>,
> {
    match problem {
        Some(error) => Some(error@),
        None => None,
    }
}

impl View for ReadStep<EngineError> {
    type V = ReadStep<EngineError<Seq<char>, Seq<u8>>>;

    open spec fn view(&self) -> ReadStep<EngineError<Seq<char>, Seq<u8>>> {
        match *self {
            ReadStep::Observe { attempt } => ReadStep::Observe { attempt },
            ReadStep::Open { attempt, observed } => ReadStep::Open { attempt, observed },
            ReadStep::InspectOpened { attempt, observed } => ReadStep::InspectOpened {
                attempt,
                observed,
            },
            ReadStep::Read { attempt, opened } => ReadStep::Read { attempt, opened },
            ReadStep::BindRead { attempt, opened, length } => ReadStep::BindRead {
                attempt,
                opened,
                length,
            },
            ReadStep::Verify { attempt, opened } => ReadStep::Verify { attempt, opened },
            ReadStep::BindVerified { attempt, opened, problem } => ReadStep::BindVerified {
                attempt,
                opened,
                problem: problem_view(problem),
            },
            ReadStep::RevalidateContainers { attempt, opened, problem } =>
                ReadStep::RevalidateContainers { attempt, opened, problem: problem_view(problem) },
            ReadStep::SyncObject { attempt, opened } => ReadStep::SyncObject { attempt, opened },
            ReadStep::SyncContainer { attempt, opened } => ReadStep::SyncContainer {
                attempt,
                opened,
            },
            ReadStep::BindSynced { attempt, opened } => ReadStep::BindSynced { attempt, opened },
            ReadStep::RevalidateLast { attempt } => ReadStep::RevalidateLast { attempt },
        }
    }
}

/// The progress of reading an object, as contracts speak of it.
pub type ReadModel = Progress<
    ReadStep<EngineError<Seq<char>, Seq<u8>>>,
    (),
    EngineError<Seq<char>, Seq<u8>>,
>;

/// The view of the progress of reading an object.
pub open spec fn read_view(progress: Progress<ReadStep, ()>) -> ReadModel {
    match progress {
        Progress::Next(step) => Progress::Next(step@),
        Progress::Done(_) => Progress::Done(()),
        Progress::Failed(error) => Progress::Failed(error@),
    }
}

/// Something changed: reading starts over, or is given up.
pub open spec fn read_again(
    attempt: u8,
    target: ObjectTarget<Seq<char>, Seq<u8>>,
) -> ReadModel {
    if attempt + 1 < MAX_READ_ATTEMPTS {
        Progress::Next(ReadStep::Observe { attempt: (attempt + 1) as u8 })
    } else {
        Progress::Failed(
            objects::object_failure(target, CanonicalObjectIssue::ObservationChanged),
        )
    }
}

fn retry_read(attempt: u8, target: &ObjectTarget) -> (progress: Progress<ReadStep, ()>)
    ensures
        read_view(progress) == read_again(attempt, target@),
{
    if attempt < MAX_READ_ATTEMPTS - 1 {
        Progress::Next(ReadStep::Observe { attempt: attempt + 1 })
    } else {
        Progress::Failed(target.error(CanonicalObjectIssue::ObservationChanged))
    }
}

fn io_failed(target: &ObjectTarget, operation: ObjectOperation, failure: &HostFailure) -> (progress:
    Progress<ReadStep, ()>)
    ensures
        read_view(progress) == ReadModel::Failed(
            objects::object_io_failure(target@, operation, failure.detail@),
        ),
{
    Progress::Failed(
        io_error(
            operation.name(target.flavor),
            target.path.as_slice(),
            failure.detail.as_str(),
        ),
    )
}

/// What follows the first look at the object.
pub open spec fn read_observed(
    attempt: u8,
    observed: Result<FileStat, HostFailure<Seq<char>>>,
    target: ObjectTarget<Seq<char>, Seq<u8>>,
    user: u32,
) -> ReadModel {
    match observed {
        Err(failure) => if failure.kind == HostErrorKind::NotFound {
            Progress::Failed(objects::object_failure(target, CanonicalObjectIssue::Missing))
        } else {
            Progress::Failed(
                objects::object_io_failure(
                    target,
                    ObjectOperation::InspectObject,
                    failure.detail,
                ),
            )
        },
        Ok(stat) => match objects::object_check(target, stat, 1, user) {
            Err(error) => Progress::Failed(error),
            Ok(_) => Progress::Next(ReadStep::Open { attempt, observed: stat }),
        },
    }
}

/// Decides what follows the first look at the object.
pub fn read_after_observation(
    attempt: u8,
    observed: Result<FileStat, HostFailure>,
    target: &ObjectTarget,
    expected_uid: u32,
) -> (progress: Progress<ReadStep, ()>)
    ensures
        read_view(progress) == read_observed(
            attempt,
            stat::observation_view(observed),
            target@,
            expected_uid,
        ),
{
    match observed {
        Err(failure) => {
            if failure.kind == HostErrorKind::NotFound {
                Progress::Failed(target.error(CanonicalObjectIssue::Missing))
            } else {
                io_failed(target, ObjectOperation::InspectObject, &failure)
            }
        },
        Ok(stat) => match validate_object_stat(target, &stat, 1, expected_uid) {
            Err(error) => Progress::Failed(error),
            Ok(_) => Progress::Next(ReadStep::Open { attempt, observed: stat }),
        },
    }
}

/// Decides what follows the attempt to open the object.
pub fn read_after_open(
    attempt: u8,
    observed: FileStat,
    opened: Result<(), HostFailure>,
    target: &ObjectTarget,
) -> (progress: Progress<ReadStep, ()>)
    ensures
        read_view(progress) == match opened {
            Ok(_) => ReadModel::Next(ReadStep::InspectOpened { attempt, observed }),
            Err(failure) => if failure.kind == HostErrorKind::NotFound || failure.kind
                == HostErrorKind::Loop {
                read_again(attempt, target@)
            } else {
                Progress::Failed(
                    objects::object_io_failure(
                        target@,
                        ObjectOperation::OpenObject,
                        failure.detail@,
                    ),
                )
            },
        },
{
    match opened {
        Ok(_) => Progress::Next(ReadStep::InspectOpened { attempt, observed }),
        Err(failure) => {
            if failure.kind == HostErrorKind::NotFound || failure.kind == HostErrorKind::Loop {
                retry_read(attempt, target)
            } else {
                io_failed(target, ObjectOperation::OpenObject, &failure)
            }
        },
    }
}

/// What was opened is what was observed: for canonical objects nothing changed at all, for
/// packs it is the same object.
pub open spec fn is_expected(flavor: ObjectFlavor, observed: FileStat, opened: FileStat) -> bool {
    match flavor {
        ObjectFlavor::Canonical(_) => stat::are_same_snapshot(observed, opened),
        ObjectFlavor::Pack => stat::are_same_object(observed, opened),
    }
}

/// What follows the look at what was opened.
pub open spec fn read_inspected(
    attempt: u8,
    observed: FileStat,
    opened: Result<FileStat, HostFailure<Seq<char>>>,
    target: ObjectTarget<Seq<char>, Seq<u8>>,
    user: u32,
) -> ReadModel {
    match opened {
        Err(failure) => Progress::Failed(
            objects::object_io_failure(
                target,
                ObjectOperation::InspectOpenedObject,
                failure.detail,
            ),
        ),
        Ok(stat) => if !is_expected(target.flavor, observed, stat) {
            read_again(attempt, target)
        } else {
            match objects::object_check(target, stat, 1, user) {
                Err(error) => Progress::Failed(error),
                Ok(_) => Progress::Next(ReadStep::Read { attempt, opened: stat }),
            }
        },
    }
}

/// Decides what follows the look at what was opened.
pub fn read_after_inspection(
    attempt: u8,
    observed: FileStat,
    opened: Result<FileStat, HostFailure>,
    target: &ObjectTarget,
    expected_uid: u32,
) -> (progress: Progress<ReadStep, ()>)
    ensures
        read_view(progress) == read_inspected(
            attempt,
            observed,
            stat::observation_view(opened),
            target@,
            expected_uid,
        ),
{
    match opened {
        Err(failure) => io_failed(target, ObjectOperation::InspectOpenedObject, &failure),
        Ok(stat) => {
            let expected = match target.flavor {
                ObjectFlavor::Canonical(_) => observed.same_file_snapshot(&stat),
                ObjectFlavor::Pack => observed.same_object(&stat),
            };
            if !expected {
                return retry_read(attempt, target);
            }
            match validate_object_stat(target, &stat, 1, expected_uid) {
                Err(error) => Progress::Failed(error),
                Ok(_) => Progress::Next(ReadStep::Read { attempt, opened: stat }),
            }
        },
    }
}

/// Decides what follows reading, given the number of bytes that came.
pub fn read_after_read(
    attempt: u8,
    opened: FileStat,
    read: Result<u64, HostFailure>,
    target: &ObjectTarget,
) -> (progress: Progress<ReadStep, ()>)
    ensures
        read_view(progress) == match read {
            Err(failure) => ReadModel::Failed(
                objects::object_io_failure(target@, ObjectOperation::ReadObject, failure.detail@),
            ),
            Ok(length) => Progress::Next(ReadStep::BindRead { attempt, opened, length }),
        },
{
    match read {
        Err(failure) => io_failed(target, ObjectOperation::ReadObject, &failure),
        Ok(length) => Progress::Next(ReadStep::BindRead { attempt, opened, length }),
    }
}

/// Decides what follows reading a pack in one piece, given what its strict reader says.
pub fn read_after_strict_read(
    attempt: u8,
    opened: FileStat,
    length: u64,
    verdict: ObjectVerdict,
    target: &ObjectTarget,
) -> (progress: Progress<ReadStep, ()>)
    ensures
        read_view(progress) == match objects::verdict_check(target@, verdict@) {
            Err(error) => ReadModel::Failed(error),
            Ok(_) => Progress::Next(ReadStep::BindRead { attempt, opened, length }),
        },
{
    match verify_canonical(target, verdict) {
        Err(error) => Progress::Failed(error),
        Ok(_) => Progress::Next(ReadStep::BindRead { attempt, opened, length }),
    }
}

/// What follows a check of the binding right after reading: more bytes than an object may
/// have are a problem, and are not judged further.
pub open spec fn read_bound(
    attempt: u8,
    opened: FileStat,
    length: u64,
    binding: Result<FileStat, EngineError<Seq<char>, Seq<u8>>>,
    target: ObjectTarget<Seq<char>, Seq<u8>>,
) -> ReadModel {
    match binding {
        Err(error) => Progress::Failed(error),
        Ok(current) => if !stat::are_same_snapshot(opened, current) {
            read_again(attempt, target)
        } else if target.flavor is Pack {
            Progress::Next(ReadStep::RevalidateLast { attempt })
        } else if length > objects::object_limit(target.flavor) {
            Progress::Next(
                ReadStep::BindVerified {
                    attempt,
                    opened,
                    problem: Some(
                        objects::object_failure(
                            target,
                            CanonicalObjectIssue::ObjectTooLarge {
                                limit: objects::object_limit(target.flavor),
                                actual: length,
                            },
                        ),
                    ),
                },
            )
        } else {
            Progress::Next(ReadStep::Verify { attempt, opened })
        },
    }
}

/// Decides what follows a check of the binding right after reading.
pub fn read_after_binding(
    attempt: u8,
    opened: FileStat,
    length: u64,
    pinned: Result<FileStat, HostFailure>,
    bound: Result<FileStat, HostFailure>,
    target: &ObjectTarget,
    expected_uid: u32,
) -> (progress: Progress<ReadStep, ()>)
    ensures
        read_view(progress) == read_bound(
            attempt,
            opened,
            length,
            objects::object_binding(
                target@,
                stat::observation_view(pinned),
                stat::observation_view(bound),
                expected_uid,
            ),
            target@,
        ),
{
    match ensure_object_bound(target, pinned, bound, expected_uid) {
        Err(error) => Progress::Failed(error),
        Ok(current) => {
            if !opened.same_file_snapshot(&current) {
                return retry_read(attempt, target);
            }
            match target.flavor {
                ObjectFlavor::Pack => {
                    return Progress::Next(ReadStep::RevalidateLast { attempt });
                },
                _ => {},
            }
            let limit: u64 = target.flavor.maximum_bytes();
            if length > limit {
                let problem = target.error(
                    CanonicalObjectIssue::ObjectTooLarge { limit, actual: length },
                );
                Progress::Next(ReadStep::BindVerified { attempt, opened, problem: Some(problem) })
            } else {
                Progress::Next(ReadStep::Verify { attempt, opened })
            }
        },
    }
}

/// Decides what follows the decoder's judgement: a problem is kept until it is certain that
/// the object did not change meanwhile.
pub fn read_after_verdict(
    attempt: u8,
    opened: FileStat,
    verdict: ObjectVerdict,
    target: &ObjectTarget,
) -> (progress: Progress<ReadStep, ()>)
    ensures
        read_view(progress) == ReadModel::Next(
            ReadStep::BindVerified {
                attempt,
                opened,
                problem: match objects::verdict_check(target@, verdict@) {
                    Ok(_) => None,
                    Err(error) => Some(error),
                },
            },
        ),
{
    let problem = match verify_canonical(target, verdict) {
        Ok(_) => None,
        Err(error) => Some(error),
    };
    Progress::Next(ReadStep::BindVerified { attempt, opened, problem })
}

/// Decides what follows a check of the binding after the bytes were judged.
pub fn read_after_verified_binding(
    attempt: u8,
    opened: FileStat,
    problem: Option<EngineError>,
    pinned: Result<FileStat, HostFailure>,
    bound: Result<FileStat, HostFailure>,
    target: &ObjectTarget,
    expected_uid: u32,
) -> (progress: Progress<ReadStep, ()>)
    ensures
        read_view(progress) == match objects::object_binding(
            target@,
            stat::observation_view(pinned),
            stat::observation_view(bound),
            expected_uid,
        ) {
            Err(error) => ReadModel::Failed(error),
            Ok(current) => if !stat::are_same_snapshot(opened, current) {
                read_again(attempt, target@)
            } else {
                Progress::Next(
                    ReadStep::RevalidateContainers {
                        attempt,
                        opened,
                        problem: problem_view(problem),
                    },
                )
            },
        },
{
    match ensure_object_bound(target, pinned, bound, expected_uid) {
        Err(error) => Progress::Failed(error),
        Ok(current) => {
            if !opened.same_file_snapshot(&current) {
                return retry_read(attempt, target);
            }
            Progress::Next(ReadStep::RevalidateContainers { attempt, opened, problem })
        },
    }
}

/// Decides what follows the check of the directories: now a problem with the bytes is
/// reported.
pub fn read_after_containers(
    attempt: u8,
    opened: FileStat,
    problem: Option<EngineError>,
    checked: Result<(), EngineError>,
    sync: bool,
) -> (progress: Progress<ReadStep, ()>)
    ensures
        read_view(progress) == match checked {
            Err(error) => ReadModel::Failed(error@),
            Ok(_) => match problem {
                Some(error) => Progress::Failed(error@),
                None => if sync {
                    Progress::Next(ReadStep::SyncObject { attempt, opened })
                } else {
                    Progress::Next(ReadStep::RevalidateLast { attempt })
                },
            },
        },
{
    match checked {
        Err(error) => Progress::Failed(error),
        Ok(_) => match problem {
            Some(error) => Progress::Failed(error),
            None => {
                if sync {
                    Progress::Next(ReadStep::SyncObject { attempt, opened })
                } else {
                    Progress::Next(ReadStep::RevalidateLast { attempt })
                }
            },
        },
    }
}

/// Decides what follows making the object or its name durable.
pub fn read_after_sync(
    attempt: u8,
    opened: FileStat,
    synced_name: bool,
    synced: Result<(), EngineError>,
) -> (progress: Progress<ReadStep, ()>)
    ensures
        read_view(progress) == match synced {
            Err(error) => ReadModel::Failed(error@),
            Ok(_) => if synced_name {
                Progress::Next(ReadStep::BindSynced { attempt, opened })
            } else {
                Progress::Next(ReadStep::SyncContainer { attempt, opened })
            },
        },
{
    match synced {
        Err(error) => Progress::Failed(error),
        Ok(_) => {
            if synced_name {
                Progress::Next(ReadStep::BindSynced { attempt, opened })
            } else {
                Progress::Next(ReadStep::SyncContainer { attempt, opened })
            }
        },
    }
}

/// Decides what follows a check of the binding after the object was made durable.
pub fn read_after_synced_binding(
    attempt: u8,
    opened: FileStat,
    pinned: Result<FileStat, HostFailure>,
    bound: Result<FileStat, HostFailure>,
    target: &ObjectTarget,
    expected_uid: u32,
) -> (progress: Progress<ReadStep, ()>)
    ensures
        read_view(progress) == match objects::object_binding(
            target@,
            stat::observation_view(pinned),
            stat::observation_view(bound),
            expected_uid,
        ) {
            Err(error) => ReadModel::Failed(error),
            Ok(current) => if !stat::are_same_snapshot(opened, current) {
                read_again(attempt, target@)
            } else {
                Progress::Next(ReadStep::RevalidateLast { attempt })
            },
        },
{
    match ensure_object_bound(target, pinned, bound, expected_uid) {
        Err(error) => Progress::Failed(error),
        Ok(current) => {
            if !opened.same_file_snapshot(&current) {
                return retry_read(attempt, target);
            }
            Progress::Next(ReadStep::RevalidateLast { attempt })
        },
    }
}

/// Decides what follows the last check of the directories.
pub fn read_after_last_check(checked: Result<(), EngineError>) -> (progress: Progress<
    ReadStep,
    (),
>)
    ensures
        read_view(progress) == match checked {
            Err(error) => ReadModel::Failed(error@),
            Ok(_) => Progress::Done(()),
        },
{
    match checked {
        Err(error) => Progress::Failed(error),
        Ok(_) => Progress::Done(()),
    }
}

/// Starting over always uses up an attempt, and there are only so many.
pub proof fn lemma_read_attempts_are_bounded(
    attempt: u8,
    target: ObjectTarget<Seq<char>, Seq<u8>>,
)
    ensures
        read_again(attempt, target) matches Progress::Next(step) ==> (step matches
            ReadStep::Observe { attempt: next } && attempt < next < MAX_READ_ATTEMPTS),
        read_again(attempt, target) !is Done,
{
}

/// Bytes go on to be judged only where the object is exactly what was opened, is still
/// reached under its digest, and has no more bytes than it may have.
pub proof fn lemma_judged_bytes_are_of_an_unchanged_object(
    attempt: u8,
    opened: FileStat,
    length: u64,
    pinned: Result<FileStat, HostFailure<Seq<char>>>,
    bound: Result<FileStat, HostFailure<Seq<char>>>,
    target: ObjectTarget<Seq<char>, Seq<u8>>,
    user: u32,
)
    ensures
        read_bound(
            attempt,
            opened,
            length,
            objects::object_binding(target, pinned, bound, user),
            target,
        ) matches Progress::Next(step) && step is Verify ==> {
            &&& length <= objects::object_limit(target.flavor)
            &&& pinned == Ok::<FileStat, HostFailure<Seq<char>>>(opened)
            &&& bound matches Ok(found) && stat::are_same_object(opened, found)
        },
{
}

/// An object is opened only where it was observed and passes, and read only where what was
/// opened is what was observed and passes too: on the same device and with the same number, and,
/// for a canonical object, unchanged in every respect. Else it is looked at again, three times at
/// most, before a change is told.
pub proof fn lemma_only_observed_objects_are_read(
    attempt: u8,
    before: FileStat,
    observed: Result<FileStat, HostFailure<Seq<char>>>,
    target: ObjectTarget<Seq<char>, Seq<u8>>,
    user: u32,
)
    requires
        attempt < 3,
    ensures
        match read_observed(attempt, observed, target, user) {
            Progress::Next(ReadStep::Open { attempt: same, observed: stat }) => same == attempt
                && observed == Ok::<FileStat, HostFailure<Seq<char>>>(stat)
                && objects::object_problem(target.flavor, stat, 1, user) is None,
            Progress::Next(_) => false,
            Progress::Done(_) => false,
            Progress::Failed(error) => (observed matches Err(failure) && (failure.kind
                == HostErrorKind::NotFound ==> error == objects::object_failure(
                target,
                CanonicalObjectIssue::Missing,
            ))) || (observed matches Ok(stat) && (objects::object_problem(
                target.flavor,
                stat,
                1,
                user,
            ) matches Some(problem) && error == objects::object_failure(target, problem))),
        },
        match read_inspected(attempt, before, observed, target, user) {
            Progress::Next(ReadStep::Read { attempt: same, opened }) => same == attempt && observed
                == Ok::<FileStat, HostFailure<Seq<char>>>(opened) && objects::object_problem(
                target.flavor,
                opened,
                1,
                user,
            ) is None && opened.dev == before.dev && opened.ino == before.ino && (
            target.flavor is Canonical ==> opened == before),
            Progress::Next(ReadStep::Observe { attempt: next }) => next == attempt + 1 && next < 3
                && (observed matches Ok(stat) && stat != before),
            Progress::Next(_) => false,
            Progress::Done(_) => false,
            Progress::Failed(error) => match observed {
                Err(_) => true,
                Ok(stat) => objects::object_problem(target.flavor, stat, 1, user) is Some || (
                stat != before && attempt == 2 && error == objects::object_failure(
                    target,
                    CanonicalObjectIssue::ObservationChanged,
                )),
            },
        },
{
}

} // verus!
