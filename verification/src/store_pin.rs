//! Pinning the store descriptor while others may change the state root.
//!
//! The descriptor is observed, opened, read, decoded and compared with the root's entries.
//! Between these steps its binding is checked; where it changed, pinning starts over.

use vstd::prelude::*;

use crate::error::{EngineError, StoreMetadataIssue};
use crate::path::list_starts_with;
use crate::seqs;
use crate::stat;
use crate::stat::{EntryKind, FileStat, HostErrorKind, HostFailure};
use crate::state_root;
use crate::state_root::{
    check_descriptor, ensure_marker_bound, io_error, metadata_error, validate_layout_entry_stat,
    validate_marker_stat, DescriptorDecode, MAX_MARKER_BYTES,
};
use crate::store_steps;
use crate::store_steps::Progress;

verus! {

/// How often pinning is tried.
pub const MAX_PIN_ATTEMPTS: u8 = 3;

/// How often the root's entries are looked through.
pub const MAX_LAYOUT_ATTEMPTS: u8 = 32;

/// Mode of the directories in the state root.
pub const CONTAINER_MODE: u32 = 0o700;

/// Mode of the files in the state root.
pub const MUTABLE_FILE_MODE: u32 = 0o600;

/// A step of pinning the descriptor, with the number of the attempt.
#[derive(Clone, Copy, Debug, PartialEq, Eq, Structural)]
pub enum PinStep {
    /// Look at the descriptor without following links.
    Observe { attempt: u8 },
    /// List the root, since there is no descriptor.
    ListRoot { attempt: u8 },
    /// Look again, since the root has other entries.
    ObserveAgain { attempt: u8 },
    /// Open the descriptor.
    Open { attempt: u8, observed: FileStat },
    /// Look at what was opened.
    InspectOpened { attempt: u8, observed: FileStat },
    /// Read the descriptor.
    Read { attempt: u8, opened: FileStat },
    /// Check the binding after reading.
    BindRead { attempt: u8, opened: FileStat },
    /// Decode what was read.
    Decode { attempt: u8, opened: FileStat },
    /// Check the binding after decoding.
    BindDecoded { attempt: u8, opened: FileStat },
    /// Check the entries of the state root.
    ValidateLayout { attempt: u8, opened: FileStat },
    /// Check the binding for the last time.
    BindLast { attempt: u8, opened: FileStat },
}

/// The progress of pinning: it ends with what was seen of the descriptor, or with `None`
/// where the root is empty.
pub type PinModel = Progress<PinStep, Option<FileStat>, EngineError<Seq<char>, Seq<u8>>>;

/// Something changed: pinning starts over, or is given up.
pub open spec fn pin_again(attempt: u8, marker: Seq<u8>) -> PinModel {
    if attempt + 1 < MAX_PIN_ATTEMPTS {
        Progress::Next(PinStep::Observe { attempt: (attempt + 1) as u8 })
    } else {
        Progress::Failed(
            state_root::metadata_failure(marker, StoreMetadataIssue::ObservationChanged),
        )
    }
}

fn retry_pin(attempt: u8, marker: &[u8]) -> (progress: Progress<PinStep, Option<FileStat>>)
    ensures
        store_steps::progress_view(progress) == pin_again(attempt, marker@),
{
    if attempt < MAX_PIN_ATTEMPTS - 1 {
        Progress::Next(PinStep::Observe { attempt: attempt + 1 })
    } else {
        Progress::Failed(metadata_error(marker, StoreMetadataIssue::ObservationChanged))
    }
}

/// What follows the first look at the descriptor.
pub open spec fn pin_observed(
    attempt: u8,
    observed: Result<FileStat, HostFailure<Seq<char>>>,
    marker: Seq<u8>,
    user: u32,
) -> PinModel {
    match observed {
        Err(failure) => if failure.kind == HostErrorKind::NotFound {
            Progress::Next(PinStep::ListRoot { attempt })
        } else {
            Progress::Failed(
                state_root::io_failure("inspect store descriptor"@, marker, failure.detail),
            )
        },
        Ok(stat) => match state_root::marker_problem(stat, user) {
            Some(reason) => Progress::Failed(state_root::metadata_failure(marker, reason)),
            None => Progress::Next(PinStep::Open { attempt, observed: stat }),
        },
    }
}

/// Decides what follows the first look at the descriptor.
pub fn pin_after_observation(
    attempt: u8,
    observed: Result<FileStat, HostFailure>,
    marker: &[u8],
    expected_user_id: u32,
) -> (progress: Progress<PinStep, Option<FileStat>>)
    ensures
        store_steps::progress_view(progress) == pin_observed(
            attempt,
            stat::observation_view(observed),
            marker@,
            expected_user_id,
        ),
{
    match observed {
        Err(failure) => {
            if failure.kind == HostErrorKind::NotFound {
                Progress::Next(PinStep::ListRoot { attempt })
            } else {
                Progress::Failed(
                    io_error("inspect store descriptor", marker, failure.detail.as_str()),
                )
            }
        },
        Ok(stat) => match validate_marker_stat(&stat, expected_user_id) {
            Some(reason) => Progress::Failed(metadata_error(marker, reason)),
            None => Progress::Next(PinStep::Open { attempt, observed: stat }),
        },
    }
}

/// Decides what follows the listing of a root without descriptor: an empty root has nothing
/// to pin.
pub fn pin_after_listing(attempt: u8, is_empty: Result<bool, EngineError>) -> (progress: Progress<
    PinStep,
    Option<FileStat>,
>)
    ensures
        store_steps::progress_view(progress) == match store_steps::reply_view(is_empty) {
            Err(error) => PinModel::Failed(error),
            Ok(true) => PinModel::Done(None),
            Ok(false) => Progress::Next(PinStep::ObserveAgain { attempt }),
        },
{
    match is_empty {
        Err(error) => Progress::Failed(error),
        Ok(is_empty) => {
            if is_empty {
                Progress::Done(None)
            } else {
                Progress::Next(PinStep::ObserveAgain { attempt })
            }
        },
    }
}

/// Decides what follows the second look at a missing descriptor.
pub fn pin_after_second_look(attempt: u8, is_present: bool, marker: &[u8]) -> (progress: Progress<
    PinStep,
    Option<FileStat>,
>)
    ensures
        store_steps::progress_view(progress) == if is_present {
            pin_again(attempt, marker@)
        } else {
            Progress::Failed(
                state_root::metadata_failure(
                    marker@,
                    StoreMetadataIssue::MarkerMissingWithOtherEntries,
                ),
            )
        },
{
    if is_present {
        retry_pin(attempt, marker)
    } else {
        Progress::Failed(metadata_error(marker, StoreMetadataIssue::MarkerMissingWithOtherEntries))
    }
}

/// What follows the attempt to open the descriptor.
pub open spec fn pin_opened(
    attempt: u8,
    observed: FileStat,
    opened: Result<(), HostFailure<Seq<char>>>,
    marker: Seq<u8>,
) -> PinModel {
    match opened {
        Ok(_) => Progress::Next(PinStep::InspectOpened { attempt, observed }),
        Err(failure) => if failure.kind == HostErrorKind::NotFound || failure.kind
            == HostErrorKind::Loop {
            pin_again(attempt, marker)
        } else {
            Progress::Failed(
                state_root::io_failure(
                    "open store descriptor without following symlinks"@,
                    marker,
                    failure.detail,
                ),
            )
        },
    }
}

/// Decides what follows the attempt to open the descriptor.
pub fn pin_after_open(
    attempt: u8,
    observed: FileStat,
    opened: Result<(), HostFailure>,
    marker: &[u8],
) -> (progress: Progress<PinStep, Option<FileStat>>)
    ensures
        store_steps::progress_view(progress) == pin_opened(
            attempt,
            observed,
            match opened {
                Ok(_) => Ok(()),
                Err(failure) => Err(failure@),
            },
            marker@,
        ),
{
    match opened {
        Ok(_) => Progress::Next(PinStep::InspectOpened { attempt, observed }),
        Err(failure) => {
            if failure.kind == HostErrorKind::NotFound || failure.kind == HostErrorKind::Loop {
                retry_pin(attempt, marker)
            } else {
                Progress::Failed(
                    io_error(
                        "open store descriptor without following symlinks",
                        marker,
                        failure.detail.as_str(),
                    ),
                )
            }
        },
    }
}

/// What follows the look at what was opened.
pub open spec fn pin_inspected(
    attempt: u8,
    observed: FileStat,
    opened: Result<FileStat, HostFailure<Seq<char>>>,
    marker: Seq<u8>,
    user: u32,
) -> PinModel {
    match opened {
        Err(failure) => Progress::Failed(
            state_root::io_failure("inspect opened store descriptor"@, marker, failure.detail),
        ),
        Ok(stat) => if !stat::are_same_object(observed, stat) {
            pin_again(attempt, marker)
        } else {
            match state_root::marker_problem(stat, user) {
                Some(reason) => Progress::Failed(state_root::metadata_failure(marker, reason)),
                None => Progress::Next(PinStep::Read { attempt, opened: stat }),
            }
        },
    }
}

/// Decides what follows the look at what was opened.
pub fn pin_after_inspection(
    attempt: u8,
    observed: FileStat,
    opened: Result<FileStat, HostFailure>,
    marker: &[u8],
    expected_user_id: u32,
) -> (progress: Progress<PinStep, Option<FileStat>>)
    ensures
        store_steps::progress_view(progress) == pin_inspected(
            attempt,
            observed,
            stat::observation_view(opened),
            marker@,
            expected_user_id,
        ),
{
    match opened {
        Err(failure) => Progress::Failed(
            io_error("inspect opened store descriptor", marker, failure.detail.as_str()),
        ),
        Ok(stat) => {
            if !observed.same_object(&stat) {
                return retry_pin(attempt, marker);
            }
            match validate_marker_stat(&stat, expected_user_id) {
                Some(reason) => Progress::Failed(metadata_error(marker, reason)),
                None => Progress::Next(PinStep::Read { attempt, opened: stat }),
            }
        },
    }
}

/// Decides what follows reading the descriptor, given the number of bytes that came.
pub fn pin_after_read(
    attempt: u8,
    opened: FileStat,
    read: Result<usize, HostFailure>,
    marker: &[u8],
) -> (progress: Progress<PinStep, Option<FileStat>>)
    ensures
        store_steps::progress_view(progress) == match read {
            Err(failure) => PinModel::Failed(
                state_root::io_failure("read store descriptor"@, marker@, failure.detail@),
            ),
            Ok(length) => if length > MAX_MARKER_BYTES {
                Progress::Failed(
                    state_root::metadata_failure(
                        marker@,
                        StoreMetadataIssue::MarkerTooLarge {
                            limit: MAX_MARKER_BYTES,
                            actual: length as u64,
                        },
                    ),
                )
            } else {
                Progress::Next(PinStep::BindRead { attempt, opened })
            },
        },
{
    match read {
        Err(failure) => Progress::Failed(
            io_error("read store descriptor", marker, failure.detail.as_str()),
        ),
        Ok(length) => {
            if length > MAX_MARKER_BYTES {
                Progress::Failed(
                    metadata_error(
                        marker,
                        StoreMetadataIssue::MarkerTooLarge {
                            limit: MAX_MARKER_BYTES,
                            actual: length as u64,
                        },
                    ),
                )
            } else {
                Progress::Next(PinStep::BindRead { attempt, opened })
            }
        },
    }
}

/// When a binding is checked.
#[derive(Clone, Copy, Debug, PartialEq, Eq, Structural)]
pub enum BindPoint {
    /// After reading.
    Read,
    /// After decoding.
    Decoded,
    /// At the end.
    Last,
}

/// What follows a check of the binding: only an unchanged descriptor lets pinning go on.
pub open spec fn pin_bound(
    point: BindPoint,
    attempt: u8,
    opened: FileStat,
    pinned: Result<FileStat, HostFailure<Seq<char>>>,
    bound: Result<FileStat, HostFailure<Seq<char>>>,
    marker: Seq<u8>,
    user: u32,
) -> PinModel {
    match state_root::marker_binding(pinned, bound, marker, user) {
        Err(error) => Progress::Failed(error),
        Ok(current) => if !stat::are_same_snapshot(opened, current) {
            pin_again(attempt, marker)
        } else {
            match point {
                BindPoint::Read => Progress::Next(PinStep::Decode { attempt, opened }),
                BindPoint::Decoded => Progress::Next(PinStep::ValidateLayout { attempt, opened }),
                BindPoint::Last => Progress::Done(Some(current)),
            }
        },
    }
}

/// Decides what follows a check of the binding.
pub fn pin_after_binding(
    point: BindPoint,
    attempt: u8,
    opened: FileStat,
    pinned: Result<FileStat, HostFailure>,
    bound: Result<FileStat, HostFailure>,
    marker: &[u8],
    expected_user_id: u32,
) -> (progress: Progress<PinStep, Option<FileStat>>)
    ensures
        store_steps::progress_view(progress) == pin_bound(
            point,
            attempt,
            opened,
            stat::observation_view(pinned),
            stat::observation_view(bound),
            marker@,
            expected_user_id,
        ),
{
    match ensure_marker_bound(pinned, bound, marker, expected_user_id) {
        Err(error) => Progress::Failed(error),
        Ok(current) => {
            if !opened.same_file_snapshot(&current) {
                return retry_pin(attempt, marker);
            }
            match point {
                BindPoint::Read => Progress::Next(PinStep::Decode { attempt, opened }),
                BindPoint::Decoded => Progress::Next(PinStep::ValidateLayout { attempt, opened }),
                BindPoint::Last => Progress::Done(Some(current)),
            }
        },
    }
}

/// Decides what follows decoding the descriptor.
pub fn pin_after_decoding(
    attempt: u8,
    opened: FileStat,
    decoded: DescriptorDecode,
    marker: &[u8],
) -> (progress: Progress<PinStep, Option<FileStat>>)
    ensures
        store_steps::progress_view(progress) == match state_root::descriptor_check(
            decoded@,
            marker@,
        ) {
            Err(error) => PinModel::Failed(error),
            Ok(_) => Progress::Next(PinStep::BindDecoded { attempt, opened }),
        },
{
    match check_descriptor(decoded, marker) {
        Err(error) => Progress::Failed(error),
        Ok(_) => Progress::Next(PinStep::BindDecoded { attempt, opened }),
    }
}

/// Decides what follows the check of the root's entries.
pub fn pin_after_layout(attempt: u8, opened: FileStat, layout: Result<(), EngineError>) -> (progress:
    Progress<PinStep, Option<FileStat>>)
    ensures
        store_steps::progress_view(progress) == match layout {
            Err(error) => PinModel::Failed(error@),
            Ok(_) => Progress::Next(PinStep::BindLast { attempt, opened }),
        },
{
    match layout {
        Err(error) => Progress::Failed(error),
        Ok(_) => Progress::Next(PinStep::BindLast { attempt, opened }),
    }
}

/// The attempt that a step belongs to.
pub open spec fn attempt_of(step: PinStep) -> u8 {
    match step {
        PinStep::Observe { attempt } => attempt,
        PinStep::ListRoot { attempt } => attempt,
        PinStep::ObserveAgain { attempt } => attempt,
        PinStep::Open { attempt, .. } => attempt,
        PinStep::InspectOpened { attempt, .. } => attempt,
        PinStep::Read { attempt, .. } => attempt,
        PinStep::BindRead { attempt, .. } => attempt,
        PinStep::Decode { attempt, .. } => attempt,
        PinStep::BindDecoded { attempt, .. } => attempt,
        PinStep::ValidateLayout { attempt, .. } => attempt,
        PinStep::BindLast { attempt, .. } => attempt,
    }
}

/// Starting over always uses up an attempt, and there are only so many.
pub proof fn lemma_pin_attempts_are_bounded(attempt: u8, marker: Seq<u8>)
    ensures
        pin_again(attempt, marker) matches Progress::Next(step) ==> attempt < attempt_of(step)
            && attempt_of(step) < MAX_PIN_ATTEMPTS,
        pin_again(attempt, marker) !is Done,
{
}

/// A descriptor is pinned only where it is exactly what was opened, is still reached under its
/// name, and is a private regular file with one link.
pub proof fn lemma_pinned_descriptor_is_what_was_opened(
    attempt: u8,
    opened: FileStat,
    pinned: Result<FileStat, HostFailure<Seq<char>>>,
    bound: Result<FileStat, HostFailure<Seq<char>>>,
    marker: Seq<u8>,
    user: u32,
)
    ensures
        pin_bound(BindPoint::Last, attempt, opened, pinned, bound, marker, user) matches
            Progress::Done(kept) ==> {
            &&& kept == Some(opened)
            &&& pinned == Ok::<FileStat, HostFailure<Seq<char>>>(opened)
            &&& bound matches Ok(found) && stat::are_same_object(opened, found)
            &&& state_root::marker_problem(opened, user) is None
        },
{
}

/// Checks that a pinned descriptor is still what it was.
pub fn revalidate_descriptor(
    snapshot: &FileStat,
    pinned: Result<FileStat, HostFailure>,
    bound: Result<FileStat, HostFailure>,
    marker: &[u8],
    expected_user_id: u32,
) -> (checked: Result<(), EngineError>)
    ensures
        state_root::check_is(
            checked,
            match state_root::marker_binding(
                stat::observation_view(pinned),
                stat::observation_view(bound),
                marker@,
                expected_user_id,
            ) {
                Err(error) => Err(error),
                Ok(current) => if stat::are_same_snapshot(*snapshot, current) {
                    Ok(())
                } else {
                    Err(
                        state_root::metadata_failure(
                            marker@,
                            StoreMetadataIssue::ObservationChanged,
                        ),
                    )
                },
            },
        ),
{
    match ensure_marker_bound(pinned, bound, marker, expected_user_id) {
        Err(error) => Err(error),
        Ok(current) => {
            if snapshot.same_file_snapshot(&current) {
                Ok(())
            } else {
                Err(metadata_error(marker, StoreMetadataIssue::ObservationChanged))
            }
        },
    }
}

/// What an entry of the state root must be.
#[derive(Clone, Copy, Debug, PartialEq, Eq, Structural)]
pub enum RootEntryKind {
    /// The store descriptor.
    Descriptor,
    /// A private directory.
    Directory,
    /// An empty private file.
    Lock,
}

/// Requires that a name may stand in the state root.
pub fn require_root_entry(entry: Option<RootEntryKind>, path: &[u8]) -> (kind: Result<
    RootEntryKind,
    EngineError,
>)
    ensures
        match entry {
            Some(found) => kind == Ok::<RootEntryKind, EngineError>(found),
            None => kind matches Err(error) && error@ == state_root::metadata_failure(
                path@,
                StoreMetadataIssue::UnexpectedRootEntry,
            ),
        },
{
    match entry {
        Some(found) => Ok(found),
        None => Err(metadata_error(path, StoreMetadataIssue::UnexpectedRootEntry)),
    }
}

/// What is wrong with a directory or lock of the state root, if anything.
pub open spec fn entry_problem(lock: bool, stat: FileStat, user: u32) -> Option<Seq<char>> {
    if lock {
        state_root::layout_problem(stat, EntryKind::Regular, user, MUTABLE_FILE_MODE, true)
    } else {
        state_root::layout_problem(stat, EntryKind::Directory, user, CONTAINER_MODE, false)
    }
}

fn problem_of_entry(lock: bool, stat: &FileStat, user: u32) -> (problem: Option<StoreMetadataIssue>)
    ensures
        state_root::issue_view(problem) == match entry_problem(lock, *stat, user) {
            Some(detail) => Some(StoreMetadataIssue::<Seq<char>>::InvalidRootEntry { detail }),
            None => None,
        },
{
    if lock {
        validate_layout_entry_stat(stat, EntryKind::Regular, user, MUTABLE_FILE_MODE, true)
    } else {
        validate_layout_entry_stat(stat, EntryKind::Directory, user, CONTAINER_MODE, false)
    }
}

/// Checks a directory or lock of the state root before it is opened.
pub fn check_observed_entry(
    lock: bool,
    observed: Result<FileStat, HostFailure>,
    path: &[u8],
    expected_user_id: u32,
) -> (checked: Result<FileStat, EngineError>)
    ensures
        state_root::checked_view(checked) == match stat::observation_view(observed) {
            Err(failure) => Err(
                state_root::io_failure(
                    if lock {
                        "inspect final-root lock"@
                    } else {
                        "inspect final-root container"@
                    },
                    path@,
                    failure.detail,
                ),
            ),
            Ok(stat) => match entry_problem(lock, stat, expected_user_id) {
                Some(detail) => Err(
                    state_root::metadata_failure(
                        path@,
                        StoreMetadataIssue::InvalidRootEntry { detail },
                    ),
                ),
                None => Ok(stat),
            },
        },
{
    match observed {
        Err(failure) => {
            let operation = if lock {
                "inspect final-root lock"
            } else {
                "inspect final-root container"
            };
            Err(io_error(operation, path, failure.detail.as_str()))
        },
        Ok(stat) => match problem_of_entry(lock, &stat, expected_user_id) {
            Some(reason) => Err(metadata_error(path, reason)),
            None => Ok(stat),
        },
    }
}

/// Checks a directory or lock of the state root once it is open: it must be in order and be
/// what was observed before.
pub fn check_pinned_entry(
    lock: bool,
    observed: &FileStat,
    opened: Result<FileStat, HostFailure>,
    path: &[u8],
    expected_user_id: u32,
) -> (checked: Result<(), EngineError>)
    ensures
        state_root::check_is(
            checked,
            match stat::observation_view(opened) {
                Err(failure) => Err(
                    state_root::io_failure(
                        if lock {
                            "inspect pinned final-root lock"@
                        } else {
                            "inspect pinned final-root container"@
                        },
                        path@,
                        failure.detail,
                    ),
                ),
                Ok(stat) => match entry_problem(lock, stat, expected_user_id) {
                    Some(detail) => Err(
                        state_root::metadata_failure(
                            path@,
                            StoreMetadataIssue::InvalidRootEntry { detail },
                        ),
                    ),
                    None => if stat::are_same_object(*observed, stat) {
                        Ok(())
                    } else {
                        Err(
                            state_root::metadata_failure(
                                path@,
                                StoreMetadataIssue::ObservationChanged,
                            ),
                        )
                    },
                },
            },
        ),
{
    match opened {
        Err(failure) => {
            let operation = if lock {
                "inspect pinned final-root lock"
            } else {
                "inspect pinned final-root container"
            };
            Err(io_error(operation, path, failure.detail.as_str()))
        },
        Ok(stat) => match problem_of_entry(lock, &stat, expected_user_id) {
            Some(reason) => Err(metadata_error(path, reason)),
            None => {
                if observed.same_object(&stat) {
                    Ok(())
                } else {
                    Err(metadata_error(path, StoreMetadataIssue::ObservationChanged))
                }
            },
        },
    }
}

/// Checks that the root did not change while its entries were looked through.
pub fn check_layout_unchanged(
    before: &FileStat,
    after: &FileStat,
    names: &Vec<Vec<u8>>,
    names_after: &Vec<Vec<u8>>,
    root: &[u8],
) -> (checked: Result<(), EngineError>)
    ensures
        state_root::check_is(
            checked,
            if stat::are_same_snapshot(*before, *after) && seqs::views(names@) == seqs::views(
                names_after@,
            ) {
                Ok(())
            } else {
                Err(
                    state_root::metadata_failure(root@, StoreMetadataIssue::ObservationChanged),
                )
            },
        ),
{
    let same = names.len() == names_after.len() && list_starts_with(names, names_after);
    proof {
        assert(seqs::views(names@).len() == names@.len());
        assert(seqs::views(names_after@).len() == names_after@.len());
        if same {
            assert(seqs::views(names@) =~= seqs::views(names_after@));
        } else if seqs::views(names@) == seqs::views(names_after@) {
            assert(seqs::views(names@).subrange(0, names@.len() as int) =~= seqs::views(names@));
        }
    }
    if before.same_file_snapshot(after) && same {
        Ok(())
    } else {
        Err(metadata_error(root, StoreMetadataIssue::ObservationChanged))
    }
}

/// What follows a look through the root's entries; `Next` holds the number of the next look.
pub open spec fn layout_looked(
    attempt: u8,
    looked: Result<(), EngineError<Seq<char>, Seq<u8>>>,
    root: Seq<u8>,
) -> Progress<u8, (), EngineError<Seq<char>, Seq<u8>>> {
    match looked {
        Ok(_) => Progress::Done(()),
        Err(error) => if error matches EngineError::MalformedStoreMetadata { reason, .. } && reason
            is ObservationChanged {
            if attempt + 1 < MAX_LAYOUT_ATTEMPTS {
                Progress::Next((attempt + 1) as u8)
            } else {
                Progress::Failed(
                    state_root::metadata_failure(root, StoreMetadataIssue::ObservationChanged),
                )
            }
        } else {
            Progress::Failed(error)
        },
    }
}

/// Decides what follows a look through the root's entries: where they changed meanwhile, they
/// are looked through again.
pub fn layout_after_look(attempt: u8, looked: Result<(), EngineError>, root: &[u8]) -> (progress:
    Progress<u8, ()>)
    ensures
        store_steps::progress_view(progress) == layout_looked(
            attempt,
            match looked {
                Ok(_) => Ok(()),
                Err(error) => Err(error@),
            },
            root@,
        ),
{
    let error = match looked {
        Ok(_) => {
            return Progress::Done(());
        },
        Err(error) => error,
    };
    let changed = match &error {
        EngineError::MalformedStoreMetadata { reason, .. } => match reason {
            StoreMetadataIssue::ObservationChanged => true,
            _ => false,
        },
        _ => false,
    };
    if !changed {
        return Progress::Failed(error);
    }
    if attempt < MAX_LAYOUT_ATTEMPTS - 1 {
        Progress::Next(attempt + 1)
    } else {
        Progress::Failed(metadata_error(root, StoreMetadataIssue::ObservationChanged))
    }
}

/// A lock of the layout passes exactly where it is an empty regular file of the user with one
/// name that nobody else has a right to; a container, where it is a directory of the user that
/// nobody else has a right to.
pub proof fn lemma_only_private_entries_pass(stat: FileStat, user: u32)
    ensures
        entry_problem(true, stat, user) is None <==> stat.mode & 0o170000 == 0o100000 && stat.uid
            == user && stat.mode & 0o7777 == 0o600 && stat.nlink == 1 && stat.size == 0,
        entry_problem(false, stat, user) is None <==> stat.mode & 0o170000 == 0o040000 && stat.uid
            == user && stat.mode & 0o7777 == 0o700,
{
}

/// A descriptor is opened only where it was observed and passes, and read only where what was
/// opened passes too and is on the same device, with the same number; else it is looked at
/// again, three times at most, before a change is told.
pub proof fn lemma_only_observed_descriptors_are_read(
    attempt: u8,
    before: FileStat,
    observed: Result<FileStat, HostFailure<Seq<char>>>,
    marker: Seq<u8>,
    user: u32,
)
    requires
        attempt < 3,
    ensures
        match pin_observed(attempt, observed, marker, user) {
            Progress::Next(PinStep::Open { attempt: same, observed: stat }) => same == attempt
                && observed == Ok::<FileStat, HostFailure<Seq<char>>>(stat)
                && state_root::marker_problem(stat, user) is None,
            Progress::Next(PinStep::ListRoot { attempt: same }) => same == attempt && (
            observed matches Err(failure) && failure.kind == HostErrorKind::NotFound),
            Progress::Next(_) => false,
            Progress::Done(_) => false,
            Progress::Failed(_) => match observed {
                Ok(stat) => state_root::marker_problem(stat, user) is Some,
                Err(failure) => failure.kind != HostErrorKind::NotFound,
            },
        },
        match pin_inspected(attempt, before, observed, marker, user) {
            Progress::Next(PinStep::Read { attempt: same, opened }) => same == attempt && observed
                == Ok::<FileStat, HostFailure<Seq<char>>>(opened) && opened.dev == before.dev
                && opened.ino == before.ino && state_root::marker_problem(opened, user) is None,
            Progress::Next(PinStep::Observe { attempt: next }) => next == attempt + 1 && next < 3
                && (observed matches Ok(stat) && (stat.dev != before.dev || stat.ino
                != before.ino)),
            Progress::Next(_) => false,
            Progress::Done(_) => false,
            Progress::Failed(_) => match observed {
                Ok(stat) => attempt == 2 || state_root::marker_problem(stat, user) is Some,
                Err(_) => true,
            },
        },
{
}

} // verus!
