//! Store failures as they are told to clients: without paths, numbers or private detail.

use vstd::prelude::*;

use crate::error::{DirectorySafetyIssue, EngineError, StoreMetadataIssue};
use crate::store_types::{InitializeStoreOutcome, StateDirectory, StoreStatus};

verus! {

/// Store status told to clients.
#[derive(Clone, Copy, Debug, PartialEq, Eq, Structural)]
pub enum StoreStatusV1 {
    Absent,
    Uninitialized,
    Ready,
}

/// A directory of the store, told to clients.
#[derive(Clone, Copy, Debug, PartialEq, Eq, Structural)]
pub enum StoreDirectoryV1 {
    StateParent,
    V1Root,
}

/// Why a directory of the store is unsafe, told to clients.
#[derive(Clone, Copy, Debug, PartialEq, Eq, Structural)]
pub enum DirectorySafetyReasonV1 {
    WrongOwner,
    GroupOrOtherWritable,
    SpecialModeBitsSet,
    UnexpectedMode,
    AncestryLimitExceeded,
}

/// Why store metadata is malformed, told to clients.
#[derive(Clone, Copy, Debug, PartialEq, Eq, Structural)]
pub enum StoreMetadataReasonV1 {
    MarkerMissingWithOtherEntries,
    MarkerNotRegular,
    MarkerTooLarge,
    UnexpectedRootEntry,
    InvalidRootEntry,
    WrongOwner,
    UnexpectedMode,
    MultipleLinks,
    ObservationChanged,
    InvalidDescriptor,
}

/// A store root, told to clients.
#[derive(Clone, Copy, Debug, PartialEq, Eq, Structural)]
pub enum StoreRootV1 {
    V1,
}

/// A store failure told to clients.
#[derive(Clone, Copy, Debug, PartialEq, Eq, Structural)]
pub enum StoreErrorV1 {
    ReadOnlyStore,
    StoreNotReady { status: StoreStatusV1 },
    StateParentMissing,
    UnsafeDirectory { directory: StoreDirectoryV1, reason: DirectorySafetyReasonV1 },
    RootObservationChanged { root: StoreRootV1 },
    StateParentObservationChanged,
    MalformedStoreMetadata { reason: StoreMetadataReasonV1 },
    UnsupportedStoreVersion { expected: u32, found: u32 },
    Io,
    Internal,
}

/// How clients are told the store status.
pub open spec fn told_status(value: StoreStatus) -> StoreStatusV1 {
    match value {
        StoreStatus::Absent => StoreStatusV1::Absent,
        StoreStatus::Uninitialized => StoreStatusV1::Uninitialized,
        StoreStatus::Ready => StoreStatusV1::Ready,
    }
}

/// Tells clients the store status.
pub fn store_status_v1(value: StoreStatus) -> (told: StoreStatusV1)
    ensures
        told == told_status(value),
{
    match value {
        StoreStatus::Absent => StoreStatusV1::Absent,
        StoreStatus::Uninitialized => StoreStatusV1::Uninitialized,
        StoreStatus::Ready => StoreStatusV1::Ready,
    }
}

/// How clients are told which directory is meant.
pub open spec fn told_directory(value: StateDirectory) -> StoreDirectoryV1 {
    match value {
        StateDirectory::StateParent => StoreDirectoryV1::StateParent,
        StateDirectory::V1Root => StoreDirectoryV1::V1Root,
    }
}

/// Tells clients which directory is meant.
pub fn store_directory_v1(value: StateDirectory) -> (told: StoreDirectoryV1)
    ensures
        told == told_directory(value),
{
    match value {
        StateDirectory::StateParent => StoreDirectoryV1::StateParent,
        StateDirectory::V1Root => StoreDirectoryV1::V1Root,
    }
}

/// How clients are told why a directory is unsafe.
pub open spec fn told_safety_reason(value: DirectorySafetyIssue) -> DirectorySafetyReasonV1 {
    match value {
        DirectorySafetyIssue::WrongOwner { .. } => DirectorySafetyReasonV1::WrongOwner,
        DirectorySafetyIssue::GroupOrOtherWritable { .. } => DirectorySafetyReasonV1::GroupOrOtherWritable,
        DirectorySafetyIssue::SpecialModeBitsSet { .. } => DirectorySafetyReasonV1::SpecialModeBitsSet,
        DirectorySafetyIssue::UnexpectedMode { .. } => DirectorySafetyReasonV1::UnexpectedMode,
        DirectorySafetyIssue::AncestryLimitExceeded { .. } => DirectorySafetyReasonV1::AncestryLimitExceeded,
    }
}

/// Tells clients why a directory is unsafe.
pub fn directory_safety_reason_v1(value: DirectorySafetyIssue) -> (told: DirectorySafetyReasonV1)
    ensures
        told == told_safety_reason(value),
{
    match value {
        DirectorySafetyIssue::WrongOwner { .. } => DirectorySafetyReasonV1::WrongOwner,
        DirectorySafetyIssue::GroupOrOtherWritable { .. } => DirectorySafetyReasonV1::GroupOrOtherWritable,
        DirectorySafetyIssue::SpecialModeBitsSet { .. } => DirectorySafetyReasonV1::SpecialModeBitsSet,
        DirectorySafetyIssue::UnexpectedMode { .. } => DirectorySafetyReasonV1::UnexpectedMode,
        DirectorySafetyIssue::AncestryLimitExceeded { .. } => DirectorySafetyReasonV1::AncestryLimitExceeded,
    }
}

/// How clients are told why metadata is malformed.
pub open spec fn told_metadata_reason(value: StoreMetadataIssue<Seq<char>>) -> StoreMetadataReasonV1 {
    match value {
        StoreMetadataIssue::MarkerMissingWithOtherEntries => StoreMetadataReasonV1::MarkerMissingWithOtherEntries,
        StoreMetadataIssue::MarkerNotRegular => StoreMetadataReasonV1::MarkerNotRegular,
        StoreMetadataIssue::MarkerTooLarge { .. } => StoreMetadataReasonV1::MarkerTooLarge,
        StoreMetadataIssue::UnexpectedRootEntry => StoreMetadataReasonV1::UnexpectedRootEntry,
        StoreMetadataIssue::InvalidRootEntry { .. } => StoreMetadataReasonV1::InvalidRootEntry,
        StoreMetadataIssue::WrongOwner { .. } => StoreMetadataReasonV1::WrongOwner,
        StoreMetadataIssue::UnexpectedMode { .. } => StoreMetadataReasonV1::UnexpectedMode,
        StoreMetadataIssue::MultipleLinks { .. } => StoreMetadataReasonV1::MultipleLinks,
        StoreMetadataIssue::ObservationChanged => StoreMetadataReasonV1::ObservationChanged,
        StoreMetadataIssue::InvalidDescriptor { .. } => StoreMetadataReasonV1::InvalidDescriptor,
    }
}

/// Tells clients why metadata is malformed.
pub fn store_metadata_reason_v1(value: &StoreMetadataIssue) -> (told: StoreMetadataReasonV1)
    ensures
        told == told_metadata_reason(value@),
{
    match value {
        StoreMetadataIssue::MarkerMissingWithOtherEntries => StoreMetadataReasonV1::MarkerMissingWithOtherEntries,
        StoreMetadataIssue::MarkerNotRegular => StoreMetadataReasonV1::MarkerNotRegular,
        StoreMetadataIssue::MarkerTooLarge { .. } => StoreMetadataReasonV1::MarkerTooLarge,
        StoreMetadataIssue::UnexpectedRootEntry => StoreMetadataReasonV1::UnexpectedRootEntry,
        StoreMetadataIssue::InvalidRootEntry { .. } => StoreMetadataReasonV1::InvalidRootEntry,
        StoreMetadataIssue::WrongOwner { .. } => StoreMetadataReasonV1::WrongOwner,
        StoreMetadataIssue::UnexpectedMode { .. } => StoreMetadataReasonV1::UnexpectedMode,
        StoreMetadataIssue::MultipleLinks { .. } => StoreMetadataReasonV1::MultipleLinks,
        StoreMetadataIssue::ObservationChanged => StoreMetadataReasonV1::ObservationChanged,
        StoreMetadataIssue::InvalidDescriptor { .. } => StoreMetadataReasonV1::InvalidDescriptor,
    }
}

/// How clients are told of a failure. What is not about the store itself, and what contradicts
/// itself, is an internal failure.
pub open spec fn told_error(error: EngineError<Seq<char>, Seq<u8>>) -> StoreErrorV1 {
    match error {
        EngineError::ReadOnlyStore => StoreErrorV1::ReadOnlyStore,
        EngineError::StoreNotReady { status } => if status == StoreStatus::Ready {
            StoreErrorV1::Internal
        } else {
            StoreErrorV1::StoreNotReady { status: told_status(status) }
        },
        EngineError::StateParentMissing { .. } => StoreErrorV1::StateParentMissing,
        EngineError::UnsafeDirectory { directory, reason, .. } => StoreErrorV1::UnsafeDirectory {
            directory: told_directory(directory),
            reason: told_safety_reason(reason),
        },
        EngineError::RootObservationChanged { .. } => StoreErrorV1::RootObservationChanged {
            root: StoreRootV1::V1,
        },
        EngineError::StateParentObservationChanged { .. } =>
            StoreErrorV1::StateParentObservationChanged,
        EngineError::MalformedStoreMetadata { reason, .. } =>
            StoreErrorV1::MalformedStoreMetadata { reason: told_metadata_reason(reason) },
        EngineError::UnsupportedStoreVersion { expected, found, .. } => if expected == found {
            StoreErrorV1::Internal
        } else {
            StoreErrorV1::UnsupportedStoreVersion { expected, found }
        },
        EngineError::Io { .. } => StoreErrorV1::Io,
        _ => StoreErrorV1::Internal,
    }
}

/// Tells clients of a failure.
pub fn store_error_v1(error: EngineError) -> (told: StoreErrorV1)
    ensures
        told == told_error(error@),
{
    match error {
        EngineError::ReadOnlyStore => StoreErrorV1::ReadOnlyStore,
        EngineError::StoreNotReady { status } => match status {
            StoreStatus::Ready => StoreErrorV1::Internal,
            _ => StoreErrorV1::StoreNotReady { status: store_status_v1(status) },
        },
        EngineError::StateParentMissing { .. } => StoreErrorV1::StateParentMissing,
        EngineError::UnsafeDirectory { directory, reason, .. } => StoreErrorV1::UnsafeDirectory {
            directory: store_directory_v1(directory),
            reason: directory_safety_reason_v1(reason),
        },
        EngineError::RootObservationChanged { .. } => StoreErrorV1::RootObservationChanged {
            root: StoreRootV1::V1,
        },
        EngineError::StateParentObservationChanged { .. } =>
            StoreErrorV1::StateParentObservationChanged,
        EngineError::MalformedStoreMetadata { reason, .. } =>
            StoreErrorV1::MalformedStoreMetadata { reason: store_metadata_reason_v1(&reason) },
        EngineError::UnsupportedStoreVersion { expected, found, .. } => {
            if expected == found {
                StoreErrorV1::Internal
            } else {
                StoreErrorV1::UnsupportedStoreVersion { expected, found }
            }
        },
        EngineError::Io { .. } => StoreErrorV1::Io,
        _ => StoreErrorV1::Internal,
    }
}

/// Clients are never told a path, a system's words or a parser's words: errors that differ
/// only in these are told alike.
pub proof fn lemma_private_detail_is_not_told(
    first_path: Seq<u8>,
    second_path: Seq<u8>,
    first_text: Seq<char>,
    second_text: Seq<char>,
    first_operation: Seq<char>,
    second_operation: Seq<char>,
    directory: StateDirectory,
    safety: DirectorySafetyIssue,
    expected: u32,
    found: u32,
)
    ensures
        told_error(EngineError::StateParentMissing { path: first_path }) == told_error(
            EngineError::StateParentMissing { path: second_path },
        ),
        told_error(
            EngineError::UnsafeDirectory { directory, path: first_path, reason: safety },
        ) == told_error(
            EngineError::UnsafeDirectory { directory, path: second_path, reason: safety },
        ),
        told_error(EngineError::RootObservationChanged { path: first_path }) == told_error(
            EngineError::RootObservationChanged { path: second_path },
        ),
        told_error(EngineError::StateParentObservationChanged { path: first_path }) == told_error(
            EngineError::StateParentObservationChanged { path: second_path },
        ),
        told_error(
            EngineError::MalformedStoreMetadata {
                path: first_path,
                reason: StoreMetadataIssue::InvalidDescriptor { detail: first_text },
            },
        ) == told_error(
            EngineError::MalformedStoreMetadata {
                path: second_path,
                reason: StoreMetadataIssue::InvalidDescriptor { detail: second_text },
            },
        ),
        told_error(
            EngineError::MalformedStoreMetadata {
                path: first_path,
                reason: StoreMetadataIssue::InvalidRootEntry { detail: first_text },
            },
        ) == told_error(
            EngineError::MalformedStoreMetadata {
                path: second_path,
                reason: StoreMetadataIssue::InvalidRootEntry { detail: second_text },
            },
        ),
        told_error(
            EngineError::UnsupportedStoreVersion { path: first_path, expected, found },
        ) == told_error(
            EngineError::UnsupportedStoreVersion { path: second_path, expected, found },
        ),
        told_error(
            EngineError::Io { operation: first_operation, path: first_path, detail: first_text },
        ) == told_error(
            EngineError::Io { operation: second_operation, path: second_path, detail: second_text },
        ),
{
}

/// What a client is told of a store operation that succeeded.
#[derive(Clone, Copy, Debug, PartialEq, Eq, Structural)]
#[non_exhaustive]
pub enum StoreResultV1 {
    /// The store was inspected.
    Status { status: StoreStatusV1 },
    /// The store is initialized.
    Initialized,
}

/// Tells a client what an inspection of the store gave.
pub fn answer_status(inspected: Result<StoreStatus, EngineError>) -> (answer: Result<
    StoreResultV1,
    StoreErrorV1,
>)
    ensures
        match inspected {
            Ok(status) => answer == Ok::<StoreResultV1, StoreErrorV1>(
                StoreResultV1::Status { status: told_status(status) },
            ),
            Err(error) => answer == Err::<StoreResultV1, StoreErrorV1>(told_error(error@)),
        },
{
    match inspected {
        Ok(status) => Ok(StoreResultV1::Status { status: store_status_v1(status) }),
        Err(error) => Err(store_error_v1(error)),
    }
}

/// Tells a client how an initialization of the store ended.
pub fn answer_initialization(outcome: Result<InitializeStoreOutcome, EngineError>) -> (answer:
    Result<StoreResultV1, StoreErrorV1>)
    ensures
        match outcome {
            Ok(_) => answer == Ok::<StoreResultV1, StoreErrorV1>(StoreResultV1::Initialized),
            Err(error) => answer == Err::<StoreResultV1, StoreErrorV1>(told_error(error@)),
        },
{
    match outcome {
        Ok(_) => Ok(StoreResultV1::Initialized),
        Err(error) => Err(store_error_v1(error)),
    }
}

} // verus!
