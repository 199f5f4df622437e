//! The lock file of a root pack: what it must be, and how it is replaced.

use vstd::prelude::*;

use crate::error::{EngineError, LockFileIssue, LockOperationError};
use crate::graph_sources::LockSource;
use crate::limits::MAX_LOCK_BYTES;
use crate::seqs::{bytes_equal, copy_bytes};
use crate::stat;
use crate::stat::{EntryKind, FileStat, HostErrorKind, HostFailure, PERMISSION_MASK};
use crate::store_steps::Progress;
use crate::store_types::{LockFilePublication, StoreAccess};

verus! {

/// Mode of the lock file.
pub const LOCK_MODE: u32 = 0o644;

/// A failed operation on the lock file.
pub open spec fn lock_failure(path: Seq<u8>, reason: LockFileIssue<Seq<char>>) -> LockOperationError<
    Seq<char>,
    Seq<u8>,
> {
    LockOperationError::LockFile { path, reason }
}

/// A file-system call on the lock file that failed.
pub open spec fn lock_io_failure(path: Seq<u8>, operation: Seq<char>, detail: Seq<char>) -> LockOperationError<
    Seq<char>,
    Seq<u8>,
> {
    lock_failure(path, LockFileIssue::Io { operation, detail })
}

/// Describes a failed operation on the lock file.
pub fn lock_file_error(path: &[u8], reason: LockFileIssue) -> (error: LockOperationError)
    ensures
        error@ == lock_failure(path@, reason@),
{
    LockOperationError::LockFile { path: copy_bytes(path), reason }
}

/// Describes a file-system call on the lock file that failed.
pub fn lock_io(path: &[u8], operation: &str, detail: &str) -> (error: LockOperationError)
    ensures
        error@ == lock_io_failure(path@, operation@, detail@),
{
    lock_file_error(
        path,
        LockFileIssue::Io { operation: operation.to_owned(), detail: detail.to_owned() },
    )
}

/// The outcome is what was expected.
pub open spec fn lock_check_is(
    outcome: Result<(), LockOperationError>,
    expected: Result<(), LockOperationError<Seq<char>, Seq<u8>>>,
) -> bool {
    match outcome {
        Ok(_) => expected is Ok,
        Err(error) => expected == Err::<(), LockOperationError<Seq<char>, Seq<u8>>>(error@),
    }
}

/// The view of a checked observation.
pub open spec fn lock_stat_view(checked: Result<FileStat, LockOperationError>) -> Result<
    FileStat,
    LockOperationError<Seq<char>, Seq<u8>>,
> {
    match checked {
        Ok(stat) => Ok(stat),
        Err(error) => Err(error@),
    }
}

/// What is wrong with a lock file, if anything; the first problem counts.
pub open spec fn lock_problem(stat: FileStat, links: u64, user: u32) -> Option<
    LockFileIssue<Seq<char>>,
> {
    if stat::kind_of(stat.mode) != EntryKind::Regular {
        Some(LockFileIssue::NotRegular)
    } else if stat.uid != user {
        Some(LockFileIssue::WrongOwner { expected_uid: user, actual_uid: stat.uid })
    } else if stat.mode & PERMISSION_MASK != LOCK_MODE {
        Some(
            LockFileIssue::UnexpectedMode {
                expected: LOCK_MODE,
                actual: stat.mode & PERMISSION_MASK,
            },
        )
    } else if stat.nlink != links {
        Some(LockFileIssue::UnexpectedLinks { expected: links, actual: stat.nlink })
    } else if stat.size < 0 || stat.size > MAX_LOCK_BYTES {
        Some(
            LockFileIssue::TooLarge {
                limit: MAX_LOCK_BYTES,
                actual: if stat.size < 0 || stat.size > usize::MAX {
                    usize::MAX
                } else {
                    stat.size as usize
                },
            },
        )
    } else {
        None
    }
}

/// The check of a lock file.
pub open spec fn lock_check(path: Seq<u8>, stat: FileStat, links: u64, user: u32) -> Result<
    (),
    LockOperationError<Seq<char>, Seq<u8>>,
> {
    match lock_problem(stat, links, user) {
        Some(reason) => Err(lock_failure(path, reason)),
        None => Ok(()),
    }
}

/// Checks a lock file.
pub fn validate_lock_stat(
    path: &[u8],
    stat: &FileStat,
    expected_links: u64,
    expected_user_id: u32,
) -> (checked: Result<(), LockOperationError>)
    ensures
        lock_check_is(checked, lock_check(path@, *stat, expected_links, expected_user_id)),
{
    let mode: u32 = stat.permissions();
    let reason = if stat.kind() != EntryKind::Regular {
        LockFileIssue::NotRegular
    } else if stat.uid != expected_user_id {
        LockFileIssue::WrongOwner { expected_uid: expected_user_id, actual_uid: stat.uid }
    } else if mode != LOCK_MODE {
        LockFileIssue::UnexpectedMode { expected: LOCK_MODE, actual: mode }
    } else if stat.nlink != expected_links {
        LockFileIssue::UnexpectedLinks { expected: expected_links, actual: stat.nlink }
    } else if stat.size < 0 {
        LockFileIssue::TooLarge { limit: MAX_LOCK_BYTES, actual: usize::MAX }
    } else if stat.size as u64 > MAX_LOCK_BYTES as u64 {
        let size: u64 = stat.size as u64;
        let actual: usize = if size > usize::MAX as u64 {
            usize::MAX
        } else {
            size as usize
        };
        LockFileIssue::TooLarge { limit: MAX_LOCK_BYTES, actual }
    } else {
        return Ok(());
    };
    Err(lock_file_error(path, reason))
}

/// Requires that there is no lock file.
pub fn require_absent(observed: Result<FileStat, HostFailure>, path: &[u8]) -> (checked: Result<
    (),
    LockOperationError,
>)
    ensures
        lock_check_is(
            checked,
            match stat::observation_view(observed) {
                Ok(_) => Err(lock_failure(path@, LockFileIssue::AlreadyExists)),
                Err(failure) => if failure.kind == HostErrorKind::NotFound {
                    Ok(())
                } else {
                    Err(lock_io_failure(path@, "inspect lock destination"@, failure.detail))
                },
            },
        ),
{
    match observed {
        Ok(_) => Err(lock_file_error(path, LockFileIssue::AlreadyExists)),
        Err(failure) => {
            if failure.kind == HostErrorKind::NotFound {
                Ok(())
            } else {
                Err(lock_io(path, "inspect lock destination", failure.detail.as_str()))
            }
        },
    }
}

/// Which of the two files is meant.
#[derive(Clone, Copy, Debug, PartialEq, Eq, Structural)]
pub enum LockRole {
    /// The lock file.
    Existing,
    /// What an interrupted operation left behind.
    Staging,
}

/// The check of a file before it is opened. `Ok(None)` says that there is no staging file.
pub open spec fn observed_lock(
    role: LockRole,
    observed: Result<FileStat, HostFailure<Seq<char>>>,
    path: Seq<u8>,
    user: u32,
) -> Result<Option<FileStat>, LockOperationError<Seq<char>, Seq<u8>>> {
    match observed {
        Err(failure) => if failure.kind == HostErrorKind::NotFound {
            match role {
                LockRole::Existing => Err(lock_failure(path, LockFileIssue::Missing)),
                LockRole::Staging => Ok(None),
            }
        } else {
            Err(
                lock_io_failure(
                    path,
                    match role {
                        LockRole::Existing => "inspect existing lock"@,
                        LockRole::Staging => "inspect lock staging file"@,
                    },
                    failure.detail,
                ),
            )
        },
        Ok(stat) => match lock_check(path, stat, 1, user) {
            Err(error) => Err(error),
            Ok(_) => Ok(Some(stat)),
        },
    }
}

/// Checks a file before it is opened.
pub fn check_observed_lock(
    role: LockRole,
    observed: Result<FileStat, HostFailure>,
    path: &[u8],
    expected_user_id: u32,
) -> (checked: Result<Option<FileStat>, LockOperationError>)
    ensures
        match observed_lock(role, stat::observation_view(observed), path@, expected_user_id) {
            Ok(found) => checked == Ok::<Option<FileStat>, LockOperationError>(found),
            Err(error) => checked matches Err(said) && said@ == error,
        },
{
    match observed {
        Err(failure) => {
            if failure.kind == HostErrorKind::NotFound {
                match role {
                    LockRole::Existing => Err(lock_file_error(path, LockFileIssue::Missing)),
                    LockRole::Staging => Ok(None),
                }
            } else {
                let operation = match role {
                    LockRole::Existing => "inspect existing lock",
                    LockRole::Staging => "inspect lock staging file",
                };
                Err(lock_io(path, operation, failure.detail.as_str()))
            }
        },
        Ok(stat) => match validate_lock_stat(path, &stat, 1, expected_user_id) {
            Err(error) => Err(error),
            Ok(_) => Ok(Some(stat)),
        },
    }
}

/// Decides what a failure to open a file means.
pub fn map_lock_open_error(role: LockRole, failure: HostFailure, path: &[u8]) -> (error:
    LockOperationError)
    ensures
        error@ == match failure.kind {
            HostErrorKind::NotFound => lock_failure(path@, LockFileIssue::ObservationChanged),
            HostErrorKind::NotDirectory => lock_failure(path@, LockFileIssue::ObservationChanged),
            HostErrorKind::Loop => lock_failure(path@, LockFileIssue::ObservationChanged),
            _ => lock_io_failure(
                path@,
                match role {
                    LockRole::Existing => "open existing lock without following links"@,
                    LockRole::Staging => "open lock staging file without following links"@,
                },
                failure.detail@,
            ),
        },
{
    match failure.kind {
        HostErrorKind::NotFound => lock_file_error(path, LockFileIssue::ObservationChanged),
        HostErrorKind::NotDirectory => lock_file_error(path, LockFileIssue::ObservationChanged),
        HostErrorKind::Loop => lock_file_error(path, LockFileIssue::ObservationChanged),
        _ => {
            let operation = match role {
                LockRole::Existing => "open existing lock without following links",
                LockRole::Staging => "open lock staging file without following links",
            };
            lock_io(path, operation, failure.detail.as_str())
        },
    }
}

/// Checks that what was opened is what was observed.
pub fn check_opened_lock(
    role: LockRole,
    observed: &FileStat,
    opened: Result<FileStat, HostFailure>,
    path: &[u8],
    expected_user_id: u32,
) -> (checked: Result<FileStat, LockOperationError>)
    ensures
        lock_stat_view(checked) == match stat::observation_view(opened) {
            Err(failure) => Err(
                lock_io_failure(
                    path@,
                    match role {
                        LockRole::Existing => "inspect opened lock"@,
                        LockRole::Staging => "inspect opened lock staging file"@,
                    },
                    failure.detail,
                ),
            ),
            Ok(found) => match lock_check(path@, found, 1, expected_user_id) {
                Err(error) => Err(error),
                Ok(_) => if stat::are_same_snapshot(*observed, found) {
                    Ok(found)
                } else {
                    Err(lock_failure(path@, LockFileIssue::ObservationChanged))
                },
            },
        },
{
    match opened {
        Err(failure) => {
            let operation = match role {
                LockRole::Existing => "inspect opened lock",
                LockRole::Staging => "inspect opened lock staging file",
            };
            Err(lock_io(path, operation, failure.detail.as_str()))
        },
        Ok(found) => match validate_lock_stat(path, &found, 1, expected_user_id) {
            Err(error) => Err(error),
            Ok(_) => {
                if observed.same_file_snapshot(&found) {
                    Ok(found)
                } else {
                    Err(lock_file_error(path, LockFileIssue::ObservationChanged))
                }
            },
        },
    }
}

/// Accepts a lock that has not too many bytes.
pub fn check_lock_length(length: usize, path: &[u8]) -> (checked: Result<(), LockOperationError>)
    ensures
        lock_check_is(
            checked,
            if length > MAX_LOCK_BYTES {
                Err(
                    lock_failure(
                        path@,
                        LockFileIssue::TooLarge { limit: MAX_LOCK_BYTES, actual: length },
                    ),
                )
            } else {
                Ok(())
            },
        ),
{
    if length > MAX_LOCK_BYTES {
        return Err(
            lock_file_error(
                path,
                LockFileIssue::TooLarge { limit: MAX_LOCK_BYTES, actual: length },
            ),
        );
    }
    Ok(())
}

/// Accepts an encoded lock that has not too many bytes.
pub fn check_encoded_length(length: usize) -> (checked: Result<(), LockOperationError>)
    ensures
        lock_check_is(
            checked,
            if length > MAX_LOCK_BYTES {
                Err(
                    LockOperationError::EncodedLockTooLarge {
                        limit: MAX_LOCK_BYTES,
                        actual: length,
                    },
                )
            } else {
                Ok(())
            },
        ),
{
    if length > MAX_LOCK_BYTES {
        return Err(
            LockOperationError::EncodedLockTooLarge { limit: MAX_LOCK_BYTES, actual: length },
        );
    }
    Ok(())
}

/// The lock file's name still leads to the open file, and both are sound.
pub open spec fn lock_binding(
    opened: Result<FileStat, HostFailure<Seq<char>>>,
    bound: Result<FileStat, HostFailure<Seq<char>>>,
    path: Seq<u8>,
    user: u32,
) -> Result<FileStat, LockOperationError<Seq<char>, Seq<u8>>> {
    match opened {
        Err(failure) => Err(lock_io_failure(path, "reinspect opened lock"@, failure.detail)),
        Ok(pin) => match bound {
            Err(failure) => if failure.kind == HostErrorKind::NotFound || failure.kind
                == HostErrorKind::NotDirectory {
                Err(lock_failure(path, LockFileIssue::ObservationChanged))
            } else {
                Err(lock_io_failure(path, "reinspect lock binding"@, failure.detail))
            },
            Ok(found) => match lock_problem(pin, 1, user) {
                Some(reason) => Err(lock_failure(path, reason)),
                None => match lock_problem(found, 1, user) {
                    Some(reason) => Err(lock_failure(path, reason)),
                    None => if stat::are_same_object(pin, found) {
                        Ok(pin)
                    } else {
                        Err(lock_failure(path, LockFileIssue::ObservationChanged))
                    },
                },
            },
        },
    }
}

/// Checks that the lock file's name still leads to the open file.
pub fn bound_lock_stat(
    opened: Result<FileStat, HostFailure>,
    bound: Result<FileStat, HostFailure>,
    path: &[u8],
    expected_user_id: u32,
) -> (checked: Result<FileStat, LockOperationError>)
    ensures
        lock_stat_view(checked) == lock_binding(
            stat::observation_view(opened),
            stat::observation_view(bound),
            path@,
            expected_user_id,
        ),
{
    let pin = match opened {
        Ok(pin) => pin,
        Err(failure) => {
            return Err(lock_io(path, "reinspect opened lock", failure.detail.as_str()));
        },
    };
    let found = match bound {
        Ok(found) => found,
        Err(failure) => {
            if failure.kind == HostErrorKind::NotFound || failure.kind
                == HostErrorKind::NotDirectory {
                return Err(lock_file_error(path, LockFileIssue::ObservationChanged));
            }
            return Err(lock_io(path, "reinspect lock binding", failure.detail.as_str()));
        },
    };
    match validate_lock_stat(path, &pin, 1, expected_user_id) {
        Err(error) => {
            return Err(error);
        },
        Ok(_) => {},
    }
    match validate_lock_stat(path, &found, 1, expected_user_id) {
        Err(error) => {
            return Err(error);
        },
        Ok(_) => {},
    }
    if pin.same_object(&found) {
        Ok(pin)
    } else {
        Err(lock_file_error(path, LockFileIssue::ObservationChanged))
    }
}

/// Checks that the lock file is still what it was.
pub fn revalidate_lock(
    snapshot: &FileStat,
    opened: Result<FileStat, HostFailure>,
    bound: Result<FileStat, HostFailure>,
    path: &[u8],
    expected_user_id: u32,
) -> (checked: Result<(), LockOperationError>)
    ensures
        lock_check_is(
            checked,
            match lock_binding(
                stat::observation_view(opened),
                stat::observation_view(bound),
                path@,
                expected_user_id,
            ) {
                Err(error) => Err(error),
                Ok(current) => if stat::are_same_snapshot(*snapshot, current) {
                    Ok(())
                } else {
                    Err(lock_failure(path@, LockFileIssue::ObservationChanged))
                },
            },
        ),
{
    match bound_lock_stat(opened, bound, path, expected_user_id) {
        Err(error) => Err(error),
        Ok(current) => {
            if snapshot.same_file_snapshot(&current) {
                Ok(())
            } else {
                Err(lock_file_error(path, LockFileIssue::ObservationChanged))
            }
        },
    }
}

/// Checks that a staging file did not change while it was read.
pub fn check_read_staging(
    opened: &FileStat,
    last: &FileStat,
    bound: &FileStat,
    path: &[u8],
    expected_user_id: u32,
) -> (checked: Result<(), LockOperationError>)
    ensures
        lock_check_is(
            checked,
            match lock_check(path@, *last, 1, expected_user_id) {
                Err(error) => Err(error),
                Ok(_) => match lock_check(path@, *bound, 1, expected_user_id) {
                    Err(error) => Err(error),
                    Ok(_) => if stat::are_same_snapshot(*opened, *last) && stat::are_same_snapshot(
                        *opened,
                        *bound,
                    ) {
                        Ok(())
                    } else {
                        Err(lock_failure(path@, LockFileIssue::ObservationChanged))
                    },
                },
            },
        ),
{
    match validate_lock_stat(path, last, 1, expected_user_id) {
        Err(error) => {
            return Err(error);
        },
        Ok(_) => {},
    }
    match validate_lock_stat(path, bound, 1, expected_user_id) {
        Err(error) => {
            return Err(error);
        },
        Ok(_) => {},
    }
    if opened.same_file_snapshot(last) && opened.same_file_snapshot(bound) {
        Ok(())
    } else {
        Err(lock_file_error(path, LockFileIssue::ObservationChanged))
    }
}

/// A staging file may be removed only where it is a complete lock in its one spelling:
/// `encoded` is what its decoded content encodes to, if it could be decoded.
pub fn check_staging_content(bytes: &[u8], encoded: Option<&[u8]>, path: &[u8]) -> (checked: Result<
    (),
    LockOperationError,
>)
    ensures
        lock_check_is(
            checked,
            match encoded {
                Some(canonical) => if canonical@ == bytes@ {
                    Ok(())
                } else {
                    Err(lock_failure(path@, LockFileIssue::UnsafeStaging))
                },
                None => Err(lock_failure(path@, LockFileIssue::UnsafeStaging)),
            },
        ),
{
    match encoded {
        Some(canonical) => {
            if bytes_equal(canonical, bytes) {
                Ok(())
            } else {
                Err(lock_file_error(path, LockFileIssue::UnsafeStaging))
            }
        },
        None => Err(lock_file_error(path, LockFileIssue::UnsafeStaging)),
    }
}

/// A step of creating or updating the lock file; `E` is the type of errors.
#[derive(Debug)]
pub enum LockStep<E = LockOperationError> {
    /// Open the store.
    OpenStore,
    /// Check the store.
    RevalidateStore,
    /// Normalize the path of the root pack.
    NormalizeRoot,
    /// Keep the root pack apart from the state root, going by paths.
    RejectLexicalOverlap,
    /// Pin the directory of the root pack.
    PinRoot,
    /// Keep the root pack apart from the state root, going by directories.
    RejectPhysicalOverlap,
    /// Check that the root pack is still where it was.
    RevalidateRoot,
    /// Lock the directory of the root pack: `Ok(false)` where another operation holds it.
    LockRoot,
    /// Check that there is no lock file yet.
    RequireAbsent,
    /// Read the lock file.
    ReadExisting,
    /// Remove what an interrupted operation left behind.
    CleanupStaging,
    /// Resolve the complete graph.
    ResolveGraph,
    /// Encode the lock.
    Encode,
    /// Capture every local source once more.
    ValidateSnapshots,
    /// Assemble the graph from the store.
    Assemble,
    /// Check the store.
    RevalidateStoreLast,
    /// Check that the root pack is still where it was.
    RevalidateRootLast,
    /// Check that the lock file is what was read.
    RevalidateUnchanged,
    /// Make the lock file durable.
    SyncUnchanged,
    /// Make its name durable.
    SyncUnchangedRoot,
    /// Check that the root pack is still where it was.
    RevalidateUnchangedRoot,
    /// Check once more that the lock file is what was read.
    RevalidateUnchangedAgain,
    /// Write the new lock without a name and make it durable.
    WriteNew,
    /// Check that the root pack is still where it was.
    RevalidateBeforeLink,
    /// Check once more that there is no lock file.
    RequireAbsentAgain,
    /// Give the new lock its name: `Ok(false)` where the name is taken.
    Link,
    /// Give the new lock the name of a staging file.
    LinkStaging,
    /// Check that the root pack is still where it was.
    RevalidateBeforeReplace,
    /// Check that the lock file to replace is what was read.
    RevalidateReplaced,
    /// Rename the staging file over the lock file.
    Replace,
    /// Check that the name leads to the new lock.
    BindPublished,
    /// Make the name durable.
    SyncRoot,
    /// Check that the root pack is still where it was.
    RevalidatePublishedRoot,
    /// Read the lock file and compare it: `Ok(false)` where it differs.
    ReadBack,
    /// Remove the staging file, since the lock file could not be replaced.
    CleanupAfter(E),
}

impl View for LockStep<LockOperationError> {
    type V = LockStep<LockOperationError<Seq<char>, Seq<u8>>>;

    open spec fn view(&self) -> LockStep<LockOperationError<Seq<char>, Seq<u8>>> {
        match *self {
            LockStep::OpenStore => LockStep::OpenStore,
            LockStep::RevalidateStore => LockStep::RevalidateStore,
            LockStep::NormalizeRoot => LockStep::NormalizeRoot,
            LockStep::RejectLexicalOverlap => LockStep::RejectLexicalOverlap,
            LockStep::PinRoot => LockStep::PinRoot,
            LockStep::RejectPhysicalOverlap => LockStep::RejectPhysicalOverlap,
            LockStep::RevalidateRoot => LockStep::RevalidateRoot,
            LockStep::LockRoot => LockStep::LockRoot,
            LockStep::RequireAbsent => LockStep::RequireAbsent,
            LockStep::ReadExisting => LockStep::ReadExisting,
            LockStep::CleanupStaging => LockStep::CleanupStaging,
            LockStep::ResolveGraph => LockStep::ResolveGraph,
            LockStep::Encode => LockStep::Encode,
            LockStep::ValidateSnapshots => LockStep::ValidateSnapshots,
            LockStep::Assemble => LockStep::Assemble,
            LockStep::RevalidateStoreLast => LockStep::RevalidateStoreLast,
            LockStep::RevalidateRootLast => LockStep::RevalidateRootLast,
            LockStep::RevalidateUnchanged => LockStep::RevalidateUnchanged,
            LockStep::SyncUnchanged => LockStep::SyncUnchanged,
            LockStep::SyncUnchangedRoot => LockStep::SyncUnchangedRoot,
            LockStep::RevalidateUnchangedRoot => LockStep::RevalidateUnchangedRoot,
            LockStep::RevalidateUnchangedAgain => LockStep::RevalidateUnchangedAgain,
            LockStep::WriteNew => LockStep::WriteNew,
            LockStep::RevalidateBeforeLink => LockStep::RevalidateBeforeLink,
            LockStep::RequireAbsentAgain => LockStep::RequireAbsentAgain,
            LockStep::Link => LockStep::Link,
            LockStep::LinkStaging => LockStep::LinkStaging,
            LockStep::RevalidateBeforeReplace => LockStep::RevalidateBeforeReplace,
            LockStep::RevalidateReplaced => LockStep::RevalidateReplaced,
            LockStep::Replace => LockStep::Replace,
            LockStep::BindPublished => LockStep::BindPublished,
            LockStep::SyncRoot => LockStep::SyncRoot,
            LockStep::RevalidatePublishedRoot => LockStep::RevalidatePublishedRoot,
            LockStep::ReadBack => LockStep::ReadBack,
            LockStep::CleanupAfter(error) => LockStep::CleanupAfter(error@),
        }
    }
}

/// The progress of an operation on the lock file, as contracts speak of it.
pub type LockModel = Progress<
    LockStep<LockOperationError<Seq<char>, Seq<u8>>>,
    LockFilePublication,
    LockOperationError<Seq<char>, Seq<u8>>,
>;

/// The view of the progress of an operation on the lock file.
pub open spec fn lock_view(
    progress: Progress<LockStep, LockFilePublication, LockOperationError>,
) -> LockModel {
    match progress {
        Progress::Next(step) => Progress::Next(step@),
        Progress::Done(publication) => Progress::Done(publication),
        Progress::Failed(error) => Progress::Failed(error@),
    }
}

/// How a step went, as contracts speak of it.
pub open spec fn lock_reply_view(reply: Result<bool, LockOperationError>) -> Result<
    bool,
    LockOperationError<Seq<char>, Seq<u8>>,
> {
    match reply {
        Ok(value) => Ok(value),
        Err(error) => Err(error@),
    }
}

/// A step during which a staging file stands in the root pack.
pub open spec fn is_staged<E>(step: LockStep<E>, is_update: bool) -> bool {
    is_update && (step is RevalidateBeforeReplace || step is RevalidateReplaced || step is Replace
        || step is BindPublished || step is SyncRoot || step is RevalidatePublishedRoot || step
        is ReadBack)
}

/// What a step that found something wrong leads to: a staging file is removed first.
pub open spec fn lock_failed(
    step: LockStep<LockOperationError<Seq<char>, Seq<u8>>>,
    error: LockOperationError<Seq<char>, Seq<u8>>,
    is_update: bool,
) -> LockModel {
    if is_staged(step, is_update) {
        Progress::Next(LockStep::CleanupAfter(error))
    } else {
        Progress::Failed(error)
    }
}

/// What follows a step. The reply to `RevalidateRootLast` tells whether the new lock has the
/// bytes of the lock file.
pub open spec fn lock_after(
    step: LockStep<LockOperationError<Seq<char>, Seq<u8>>>,
    reply: Result<bool, LockOperationError<Seq<char>, Seq<u8>>>,
    is_update: bool,
    path: Seq<u8>,
) -> LockModel {
    match reply {
        Err(error) => lock_failed(step, error, is_update),
        Ok(yes) => match step {
            LockStep::OpenStore => Progress::Next(LockStep::RevalidateStore),
            LockStep::RevalidateStore => Progress::Next(LockStep::NormalizeRoot),
            LockStep::NormalizeRoot => Progress::Next(LockStep::RejectLexicalOverlap),
            LockStep::RejectLexicalOverlap => Progress::Next(LockStep::PinRoot),
            LockStep::PinRoot => Progress::Next(LockStep::RejectPhysicalOverlap),
            LockStep::RejectPhysicalOverlap => Progress::Next(LockStep::RevalidateRoot),
            LockStep::RevalidateRoot => Progress::Next(LockStep::LockRoot),
            LockStep::LockRoot => if yes {
                if is_update {
                    Progress::Next(LockStep::ReadExisting)
                } else {
                    Progress::Next(LockStep::RequireAbsent)
                }
            } else {
                Progress::Failed(lock_failure(path, LockFileIssue::Busy))
            },
            LockStep::RequireAbsent => Progress::Next(LockStep::CleanupStaging),
            LockStep::ReadExisting => Progress::Next(LockStep::CleanupStaging),
            LockStep::CleanupStaging => Progress::Next(LockStep::ResolveGraph),
            LockStep::ResolveGraph => Progress::Next(LockStep::Encode),
            LockStep::Encode => Progress::Next(LockStep::ValidateSnapshots),
            LockStep::ValidateSnapshots => Progress::Next(LockStep::Assemble),
            LockStep::Assemble => Progress::Next(LockStep::RevalidateStoreLast),
            LockStep::RevalidateStoreLast => Progress::Next(LockStep::RevalidateRootLast),
            LockStep::RevalidateRootLast => if is_update && yes {
                Progress::Next(LockStep::RevalidateUnchanged)
            } else {
                Progress::Next(LockStep::WriteNew)
            },
            LockStep::RevalidateUnchanged => Progress::Next(LockStep::SyncUnchanged),
            LockStep::SyncUnchanged => Progress::Next(LockStep::SyncUnchangedRoot),
            LockStep::SyncUnchangedRoot => Progress::Next(LockStep::RevalidateUnchangedRoot),
            LockStep::RevalidateUnchangedRoot => Progress::Next(LockStep::RevalidateUnchangedAgain),
            LockStep::RevalidateUnchangedAgain => Progress::Done(LockFilePublication::Unchanged),
            LockStep::WriteNew => if is_update {
                Progress::Next(LockStep::LinkStaging)
            } else {
                Progress::Next(LockStep::RevalidateBeforeLink)
            },
            LockStep::RevalidateBeforeLink => Progress::Next(LockStep::RequireAbsentAgain),
            LockStep::RequireAbsentAgain => Progress::Next(LockStep::Link),
            LockStep::Link => if yes {
                Progress::Next(LockStep::BindPublished)
            } else {
                Progress::Failed(lock_failure(path, LockFileIssue::AlreadyExists))
            },
            LockStep::LinkStaging => Progress::Next(LockStep::RevalidateBeforeReplace),
            LockStep::RevalidateBeforeReplace => Progress::Next(LockStep::RevalidateReplaced),
            LockStep::RevalidateReplaced => Progress::Next(LockStep::Replace),
            LockStep::Replace => Progress::Next(LockStep::BindPublished),
            LockStep::BindPublished => Progress::Next(LockStep::SyncRoot),
            LockStep::SyncRoot => Progress::Next(LockStep::RevalidatePublishedRoot),
            LockStep::RevalidatePublishedRoot => Progress::Next(LockStep::ReadBack),
            LockStep::ReadBack => if yes {
                Progress::Done(
                    if is_update {
                        LockFilePublication::Updated
                    } else {
                        LockFilePublication::Created
                    },
                )
            } else {
                lock_failed(
                    step,
                    lock_failure(path, LockFileIssue::ObservationChanged),
                    is_update,
                )
            },
            LockStep::CleanupAfter(error) => Progress::Failed(error),
        },
    }
}

impl LockStep {
    fn has_staging_file(&self, is_update: bool) -> (staged: bool)
        ensures
            staged == is_staged(*self, is_update),
    {
        let late = match self {
            LockStep::RevalidateBeforeReplace => true,
            LockStep::RevalidateReplaced => true,
            LockStep::Replace => true,
            LockStep::BindPublished => true,
            LockStep::SyncRoot => true,
            LockStep::RevalidatePublishedRoot => true,
            LockStep::ReadBack => true,
            _ => false,
        };
        is_update && late
    }

    /// Decides what follows this step.
    pub fn after(self, reply: Result<bool, LockOperationError>, is_update: bool, path: &[u8]) -> (progress:
        Progress<LockStep, LockFilePublication, LockOperationError>)
        ensures
            lock_view(progress) == lock_after(self@, lock_reply_view(reply), is_update, path@),
    {
        let staged = self.has_staging_file(is_update);
        proof {
            assert(staged == is_staged(self@, is_update));
        }
        let yes = match reply {
            Err(error) => {
                if staged {
                    return Progress::Next(LockStep::CleanupAfter(error));
                }
                return Progress::Failed(error);
            },
            Ok(yes) => yes,
        };
        match self {
            LockStep::OpenStore => Progress::Next(LockStep::RevalidateStore),
            LockStep::RevalidateStore => Progress::Next(LockStep::NormalizeRoot),
            LockStep::NormalizeRoot => Progress::Next(LockStep::RejectLexicalOverlap),
            LockStep::RejectLexicalOverlap => Progress::Next(LockStep::PinRoot),
            LockStep::PinRoot => Progress::Next(LockStep::RejectPhysicalOverlap),
            LockStep::RejectPhysicalOverlap => Progress::Next(LockStep::RevalidateRoot),
            LockStep::RevalidateRoot => Progress::Next(LockStep::LockRoot),
            LockStep::LockRoot => if yes {
                if is_update {
                    Progress::Next(LockStep::ReadExisting)
                } else {
                    Progress::Next(LockStep::RequireAbsent)
                }
            } else {
                Progress::Failed(lock_file_error(path, LockFileIssue::Busy))
            },
            LockStep::RequireAbsent => Progress::Next(LockStep::CleanupStaging),
            LockStep::ReadExisting => Progress::Next(LockStep::CleanupStaging),
            LockStep::CleanupStaging => Progress::Next(LockStep::ResolveGraph),
            LockStep::ResolveGraph => Progress::Next(LockStep::Encode),
            LockStep::Encode => Progress::Next(LockStep::ValidateSnapshots),
            LockStep::ValidateSnapshots => Progress::Next(LockStep::Assemble),
            LockStep::Assemble => Progress::Next(LockStep::RevalidateStoreLast),
            LockStep::RevalidateStoreLast => Progress::Next(LockStep::RevalidateRootLast),
            LockStep::RevalidateRootLast => if is_update && yes {
                Progress::Next(LockStep::RevalidateUnchanged)
            } else {
                Progress::Next(LockStep::WriteNew)
            },
            LockStep::RevalidateUnchanged => Progress::Next(LockStep::SyncUnchanged),
            LockStep::SyncUnchanged => Progress::Next(LockStep::SyncUnchangedRoot),
            LockStep::SyncUnchangedRoot => Progress::Next(LockStep::RevalidateUnchangedRoot),
            LockStep::RevalidateUnchangedRoot => Progress::Next(LockStep::RevalidateUnchangedAgain),
            LockStep::RevalidateUnchangedAgain => Progress::Done(LockFilePublication::Unchanged),
            LockStep::WriteNew => if is_update {
                Progress::Next(LockStep::LinkStaging)
            } else {
                Progress::Next(LockStep::RevalidateBeforeLink)
            },
            LockStep::RevalidateBeforeLink => Progress::Next(LockStep::RequireAbsentAgain),
            LockStep::RequireAbsentAgain => Progress::Next(LockStep::Link),
            LockStep::Link => if yes {
                Progress::Next(LockStep::BindPublished)
            } else {
                Progress::Failed(lock_file_error(path, LockFileIssue::AlreadyExists))
            },
            LockStep::LinkStaging => Progress::Next(LockStep::RevalidateBeforeReplace),
            LockStep::RevalidateBeforeReplace => Progress::Next(LockStep::RevalidateReplaced),
            LockStep::RevalidateReplaced => Progress::Next(LockStep::Replace),
            LockStep::Replace => Progress::Next(LockStep::BindPublished),
            LockStep::BindPublished => Progress::Next(LockStep::SyncRoot),
            LockStep::SyncRoot => Progress::Next(LockStep::RevalidatePublishedRoot),
            LockStep::RevalidatePublishedRoot => Progress::Next(LockStep::ReadBack),
            LockStep::ReadBack => if yes {
                Progress::Done(
                    if is_update {
                        LockFilePublication::Updated
                    } else {
                        LockFilePublication::Created
                    },
                )
            } else {
                {
                    let error = lock_file_error(path, LockFileIssue::ObservationChanged);
                    if staged {
                        Progress::Next(LockStep::CleanupAfter(error))
                    } else {
                        Progress::Failed(error)
                    }
                }
            },
            LockStep::CleanupAfter(error) => Progress::Failed(error),
        }
    }
}

/// Starts creating or updating the lock file; that needs a store that may be written.
pub fn start_lock_operation(access: StoreAccess) -> (progress: Progress<
    LockStep,
    LockFilePublication,
    LockOperationError,
>)
    ensures
        lock_view(progress) == if access == StoreAccess::ReadWrite {
            LockModel::Next(LockStep::OpenStore)
        } else {
            Progress::Failed(
                LockOperationError::Source {
                    source_identity: LockSource::Root,
                    source: EngineError::ReadOnlyStore,
                },
            )
        },
{
    match access {
        StoreAccess::ReadWrite => Progress::Next(LockStep::OpenStore),
        _ => Progress::Failed(
            LockOperationError::Source {
                source_identity: LockSource::Root,
                source: EngineError::ReadOnlyStore,
            },
        ),
    }
}

/// How far the operation has come.
pub open spec fn lock_rank<E>(step: LockStep<E>) -> nat {
    match step {
        LockStep::OpenStore => 0,
        LockStep::RevalidateStore => 1,
        LockStep::NormalizeRoot => 2,
        LockStep::RejectLexicalOverlap => 3,
        LockStep::PinRoot => 4,
        LockStep::RejectPhysicalOverlap => 5,
        LockStep::RevalidateRoot => 6,
        LockStep::LockRoot => 7,
        LockStep::RequireAbsent => 8,
        LockStep::ReadExisting => 9,
        LockStep::CleanupStaging => 10,
        LockStep::ResolveGraph => 11,
        LockStep::Encode => 12,
        LockStep::ValidateSnapshots => 13,
        LockStep::Assemble => 14,
        LockStep::RevalidateStoreLast => 15,
        LockStep::RevalidateRootLast => 16,
        LockStep::RevalidateUnchanged => 17,
        LockStep::SyncUnchanged => 18,
        LockStep::SyncUnchangedRoot => 19,
        LockStep::RevalidateUnchangedRoot => 20,
        LockStep::RevalidateUnchangedAgain => 21,
        LockStep::WriteNew => 22,
        LockStep::RevalidateBeforeLink => 23,
        LockStep::RequireAbsentAgain => 24,
        LockStep::Link => 25,
        LockStep::LinkStaging => 26,
        LockStep::RevalidateBeforeReplace => 27,
        LockStep::RevalidateReplaced => 28,
        LockStep::Replace => 29,
        LockStep::BindPublished => 30,
        LockStep::SyncRoot => 31,
        LockStep::RevalidatePublishedRoot => 32,
        LockStep::ReadBack => 33,
        LockStep::CleanupAfter(_) => 34,
    }
}

/// An operation on the lock file never goes back. It calls the lock created or updated only
/// once the new bytes were read back; where an update fails after its staging file was linked,
/// the staging file is removed before the failure is reported.
pub proof fn lemma_lock_is_published_once_and_read_back(
    step: LockStep<LockOperationError<Seq<char>, Seq<u8>>>,
    reply: Result<bool, LockOperationError<Seq<char>, Seq<u8>>>,
    is_update: bool,
    path: Seq<u8>,
)
    ensures
        lock_after(step, reply, is_update, path) matches Progress::Next(next) ==> lock_rank(step)
            < lock_rank(next),
        lock_after(step, reply, is_update, path) matches Progress::Done(publication) ==> {
            &&& publication == LockFilePublication::Created ==> !is_update && step is ReadBack
            &&& publication == LockFilePublication::Updated ==> is_update && step is ReadBack
            &&& publication == LockFilePublication::Unchanged ==> step is RevalidateUnchangedAgain
            &&& step is ReadBack ==> reply == Ok::<
                bool,
                LockOperationError<Seq<char>, Seq<u8>>,
            >(true)
        },
        lock_after(step, reply, is_update, path) is Failed ==> !is_staged(step, is_update),
{
}

/// Each step of writing a lock comes after the one that it rests on, and none is left out: a new
/// lock needs that there is none, an update reads the one that is there, and one that would not
/// change is left as it is. A failed step ends it; once an update has staged its lock, that is
/// removed before the failure is told.
pub proof fn lemma_lock_steps_follow_one_another(
    step: LockStep<LockOperationError<Seq<char>, Seq<u8>>>,
    reply: Result<bool, LockOperationError<Seq<char>, Seq<u8>>>,
    is_update: bool,
    path: Seq<u8>,
)
    ensures
        match lock_after(step, reply, is_update, path) {
            Progress::Next(next) => match next {
                LockStep::OpenStore => false,
                LockStep::RevalidateStore => step is OpenStore && reply is Ok,
                LockStep::NormalizeRoot => step is RevalidateStore && reply is Ok,
                LockStep::RejectLexicalOverlap => step is NormalizeRoot && reply is Ok,
                LockStep::PinRoot => step is RejectLexicalOverlap && reply is Ok,
                LockStep::RejectPhysicalOverlap => step is PinRoot && reply is Ok,
                LockStep::RevalidateRoot => step is RejectPhysicalOverlap && reply is Ok,
                LockStep::LockRoot => step is RevalidateRoot && reply is Ok,
                LockStep::RequireAbsent => !is_update && step is LockRoot && (reply matches Ok(yes)
                    && yes),
                LockStep::ReadExisting => is_update && step is LockRoot && (reply matches Ok(yes)
                    && yes),
                LockStep::CleanupStaging => (step is RequireAbsent && reply is Ok)
                    || (step is ReadExisting && reply is Ok),
                LockStep::ResolveGraph => step is CleanupStaging && reply is Ok,
                LockStep::Encode => step is ResolveGraph && reply is Ok,
                LockStep::ValidateSnapshots => step is Encode && reply is Ok,
                LockStep::Assemble => step is ValidateSnapshots && reply is Ok,
                LockStep::RevalidateStoreLast => step is Assemble && reply is Ok,
                LockStep::RevalidateRootLast => step is RevalidateStoreLast && reply is Ok,
                LockStep::RevalidateUnchanged => is_update && step is RevalidateRootLast
                    && (reply matches Ok(yes) && yes),
                LockStep::SyncUnchanged => step is RevalidateUnchanged && reply is Ok,
                LockStep::SyncUnchangedRoot => step is SyncUnchanged && reply is Ok,
                LockStep::RevalidateUnchangedRoot => step is SyncUnchangedRoot && reply is Ok,
                LockStep::RevalidateUnchangedAgain => step is RevalidateUnchangedRoot
                    && reply is Ok,
                LockStep::WriteNew => (!is_update && step is RevalidateRootLast && reply is Ok)
                    || (step is RevalidateRootLast && (reply matches Ok(yes) && !yes)),
                LockStep::RevalidateBeforeLink => !is_update && step is WriteNew && reply is Ok,
                LockStep::RequireAbsentAgain => step is RevalidateBeforeLink && reply is Ok,
                LockStep::Link => step is RequireAbsentAgain && reply is Ok,
                LockStep::LinkStaging => is_update && step is WriteNew && reply is Ok,
                LockStep::RevalidateBeforeReplace => step is LinkStaging && reply is Ok,
                LockStep::RevalidateReplaced => step is RevalidateBeforeReplace && reply is Ok,
                LockStep::Replace => step is RevalidateReplaced && reply is Ok,
                LockStep::BindPublished => (step is Link && (reply matches Ok(yes) && yes))
                    || (step is Replace && reply is Ok),
                LockStep::SyncRoot => step is BindPublished && reply is Ok,
                LockStep::RevalidatePublishedRoot => step is SyncRoot && reply is Ok,
                LockStep::ReadBack => step is RevalidatePublishedRoot && reply is Ok,
                LockStep::CleanupAfter(error) => is_update
                    && ((reply == Err::<bool, LockOperationError<Seq<char>, Seq<u8>>>(error)
                    && (step is RevalidateBeforeReplace || step is RevalidateReplaced
                    || step is Replace || step is BindPublished || step is SyncRoot
                    || step is RevalidatePublishedRoot || step is ReadBack)) || (step is ReadBack
                    && (reply matches Ok(yes) && !yes)
                    && (error matches LockOperationError::LockFile { path: told, reason }
                    && told == path && reason is ObservationChanged))),
            },
            Progress::Done(LockFilePublication::Created) => !is_update && step is ReadBack
                && (reply matches Ok(yes) && yes),
            Progress::Done(LockFilePublication::Updated) => is_update && step is ReadBack
                && (reply matches Ok(yes) && yes),
            Progress::Done(LockFilePublication::Unchanged) => step is RevalidateUnchangedAgain
                && reply is Ok,
            Progress::Failed(error) => (reply == Err::<bool, LockOperationError<Seq<char>, Seq<u8>>>(error) && !(is_update && (step is RevalidateBeforeReplace || step is RevalidateReplaced || step is Replace || step is BindPublished || step is SyncRoot || step is RevalidatePublishedRoot || step is ReadBack))) || (reply is Ok && step == LockStep::CleanupAfter(error)) || (!is_update && (step is ReadBack && (reply matches Ok(yes) && !yes) && (error matches LockOperationError::LockFile { path: told, reason } && told == path && reason is ObservationChanged))) || ((reply matches Ok(yes) && !yes) && (step is LockRoot || step is Link) && (error matches LockOperationError::LockFile { path: told, reason } && told == path && (step is LockRoot ==> reason is Busy) && (step is Link ==> reason is AlreadyExists))),
        },
{
}

/// A lock passes exactly where it is a regular file of the user that everybody may read and only
/// the user may write, has the number of names that is asked for, and is not too large. The
/// reason tells what was found.
pub proof fn lemma_only_sound_locks_pass(stat: FileStat, links: u64, user: u32)
    ensures
        match lock_problem(stat, links, user) {
            None => stat.mode & 0o170000 == 0o100000 && stat.uid == user && stat.mode & 0o7777
                == 0o644 && stat.nlink == links && 0 <= stat.size <= 16_777_216,
            Some(LockFileIssue::NotRegular) => stat.mode & 0o170000 != 0o100000,
            Some(LockFileIssue::WrongOwner { expected_uid, actual_uid }) => expected_uid == user
                && actual_uid == stat.uid && stat.uid != user,
            Some(LockFileIssue::UnexpectedMode { expected, actual }) => expected == 0o644 && actual
                == stat.mode & 0o7777 && actual != expected,
            Some(LockFileIssue::UnexpectedLinks { expected, actual }) => expected == links && actual
                == stat.nlink && actual != expected,
            Some(LockFileIssue::TooLarge { limit, actual }) => limit == 16_777_216 && (stat.size < 0
                || (stat.size > limit && (stat.size <= usize::MAX ==> actual == stat.size))),
            Some(_) => false,
        },
{
}

/// A lock is still bound exactly where both what was opened and what the name leads to pass and
/// are on the same device, with the same number; a name that leads nowhere is told as a change.
pub proof fn lemma_lock_is_bound_to_what_was_opened(
    pin: FileStat,
    bound: Result<FileStat, HostFailure<Seq<char>>>,
    path: Seq<u8>,
    user: u32,
)
    ensures
        ({
            let opened = Ok::<FileStat, HostFailure<Seq<char>>>(pin);
            &&& lock_binding(opened, bound, path, user) matches Ok(kept) ==> kept == pin
            &&& lock_binding(opened, bound, path, user) is Ok <==> (bound matches Ok(found)
                && pin.dev == found.dev && pin.ino == found.ino && lock_problem(pin, 1, user)
                is None && lock_problem(found, 1, user) is None)
            &&& bound matches Err(failure) ==> (failure.kind == HostErrorKind::NotFound
                ==> lock_binding(opened, bound, path, user) == Err::<
                FileStat,
                LockOperationError<Seq<char>, Seq<u8>>,
            >(LockOperationError::LockFile { path, reason: LockFileIssue::ObservationChanged }))
        }),
{
}

/// A lock that must be there is told as missing where it is not; one that may be left over from
/// staging may be absent. What is there must pass.
pub proof fn lemma_observed_locks_are_sound(
    role: LockRole,
    observed: Result<FileStat, HostFailure<Seq<char>>>,
    path: Seq<u8>,
    user: u32,
)
    ensures
        match observed_lock(role, observed, path, user) {
            Ok(Some(stat)) => observed == Ok::<FileStat, HostFailure<Seq<char>>>(stat)
                && lock_problem(stat, 1, user) is None,
            Ok(None) => role is Staging && (observed matches Err(failure) && failure.kind
                == HostErrorKind::NotFound),
            Err(_) => match observed {
                Ok(stat) => lock_problem(stat, 1, user) is Some,
                Err(failure) => role is Existing || failure.kind != HostErrorKind::NotFound,
            },
        },
        role is Existing && (observed matches Err(failure) && failure.kind
            == HostErrorKind::NotFound) ==> observed_lock(role, observed, path, user) == Err::<
            Option<FileStat>,
            LockOperationError<Seq<char>, Seq<u8>>,
        >(LockOperationError::LockFile { path, reason: LockFileIssue::Missing }),
{
}

} // verus!
