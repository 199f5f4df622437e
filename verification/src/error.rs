//! Failures of engine operations and their messages.
//!
//! `T` is the type of texts and `B` that of paths: `String` and `Vec<u8>` in running
//! code, sequences in contracts.

use vstd::prelude::*;

use crate::canonical::CanonicalObjectKind;
use crate::git::issue;
use crate::git::issue::GitAcquisitionIssue;
use crate::graph_sources::LockSource;
use crate::store_types::{StateDirectory, StoreStatus};
use crate::text;
use crate::text::{decimal_text, lossy_text, octal4_text};

verus! {

/// An optional text as debugging output writes it.
pub open spec fn optional_notation(value: Option<Seq<char>>) -> Seq<char> {
    match value {
        None => "None"@,
        Some(text) => "Some("@ + text + ")"@,
    }
}

fn optional_text(value: &Option<String>) -> (text: String)
    ensures
        text@ == optional_notation(
            match *value {
                Some(inner) => Some(inner@),
                None => None,
            },
        ),
{
    match value {
        None => "None".to_owned(),
        Some(inner) => {
            let mut text = "Some(".to_owned();
            text.append(inner.as_str());
            text.append(")");
            text
        },
    }
}

/// Typed reason that a directory is unsafe for v1 state.
#[derive(Clone, Copy, Debug, PartialEq, Eq, Structural)]
#[non_exhaustive]
pub enum DirectorySafetyIssue {
    /// The directory is not owned by the current effective user.
    WrongOwner { expected_uid: u32, actual_uid: u32 },
    /// The state parent permits namespace mutation by group or other.
    GroupOrOtherWritable { mode: u32 },
    /// Set-user-ID, set-group-ID, or sticky semantics are not allowed.
    SpecialModeBitsSet { mode: u32 },
    /// The final state root does not have the required exact permission bits.
    UnexpectedMode { expected: u32, actual: u32 },
    /// Physical ancestry could not be bounded safely.
    AncestryLimitExceeded { limit: usize },
}

/// The message of a value.
pub open spec fn directory_safety_issue_message(issue: DirectorySafetyIssue) -> Seq<char> {
    match issue {
        DirectorySafetyIssue::WrongOwner { expected_uid, actual_uid } =>
            "owned by uid "@ + text::decimal(actual_uid as nat)
            + ", not current effective uid "@ + text::decimal(expected_uid as nat),
        DirectorySafetyIssue::GroupOrOtherWritable { mode } =>
            "mode "@ + text::octal4(mode as nat) + " permits writes by group or other"@,
        DirectorySafetyIssue::SpecialModeBitsSet { mode } =>
            "mode "@ + text::octal4(mode as nat) + " contains special mode bits"@,
        DirectorySafetyIssue::UnexpectedMode { expected, actual } =>
            "mode must be "@ + text::octal4(expected as nat) + ", found "@
            + text::octal4(actual as nat),
        DirectorySafetyIssue::AncestryLimitExceeded { limit } =>
            "physical ancestry exceeds "@ + text::decimal(limit as nat) + " directories"@,
    }
}

impl DirectorySafetyIssue {
    /// Returns the message.
    pub fn message(&self) -> (message: String)
        ensures
            message@ == directory_safety_issue_message(*self),
    {
        match self {
            DirectorySafetyIssue::WrongOwner { expected_uid, actual_uid } => {
                let mut message = "owned by uid ".to_owned();
                message.append(decimal_text(*actual_uid as u64).as_str());
                message.append(", not current effective uid ");
                message.append(decimal_text(*expected_uid as u64).as_str());
                message
            },
            DirectorySafetyIssue::GroupOrOtherWritable { mode } => {
                let mut message = "mode ".to_owned();
                message.append(octal4_text(*mode).as_str());
                message.append(" permits writes by group or other");
                message
            },
            DirectorySafetyIssue::SpecialModeBitsSet { mode } => {
                let mut message = "mode ".to_owned();
                message.append(octal4_text(*mode).as_str());
                message.append(" contains special mode bits");
                message
            },
            DirectorySafetyIssue::UnexpectedMode { expected, actual } => {
                let mut message = "mode must be ".to_owned();
                message.append(octal4_text(*expected).as_str());
                message.append(", found ");
                message.append(octal4_text(*actual).as_str());
                message
            },
            DirectorySafetyIssue::AncestryLimitExceeded { limit } => {
                let mut message = "physical ancestry exceeds ".to_owned();
                message.append(decimal_text(*limit as u64).as_str());
                message.append(" directories");
                message
            },
        }
    }
}

/// Typed reason that final store metadata is malformed.
#[derive(Clone, Debug, PartialEq, Eq)]
#[non_exhaustive]
#[allow(inconsistent_fields)]
pub enum StoreMetadataIssue<T = String> {
    /// A markerless root contains data and cannot be initialized implicitly.
    MarkerMissingWithOtherEntries,
    /// `descriptor.json` is not a regular file.
    MarkerNotRegular,
    /// `descriptor.json` exceeds the bounded reader limit.
    MarkerTooLarge { limit: usize, actual: u64 },
    /// A descriptor-bearing root contains a name outside the final allowlist.
    UnexpectedRootEntry,
    /// An allowed top-level leaf has incompatible type or metadata.
    InvalidRootEntry { detail: T },
    /// `descriptor.json` is not owned by the current effective user.
    WrongOwner { expected_uid: u32, actual_uid: u32 },
    /// `descriptor.json` does not have mode `0600`.
    UnexpectedMode { actual: u32 },
    /// `descriptor.json` has another hard-link alias.
    MultipleLinks { links: u64 },
    /// The descriptor changed while it was being inspected or published.
    ObservationChanged,
    /// The JSON descriptor is not the exact supported shape.
    InvalidDescriptor { detail: T },
}

impl View for StoreMetadataIssue<String> {
    type V = StoreMetadataIssue<Seq<char>>;

    open spec fn view(&self) -> StoreMetadataIssue<Seq<char>> {
        match *self {
            StoreMetadataIssue::MarkerMissingWithOtherEntries =>
                StoreMetadataIssue::MarkerMissingWithOtherEntries,
            StoreMetadataIssue::MarkerNotRegular => StoreMetadataIssue::MarkerNotRegular,
            StoreMetadataIssue::MarkerTooLarge { limit, actual } =>
                StoreMetadataIssue::MarkerTooLarge { limit, actual },
            StoreMetadataIssue::UnexpectedRootEntry => StoreMetadataIssue::UnexpectedRootEntry,
            StoreMetadataIssue::InvalidRootEntry { detail } =>
                StoreMetadataIssue::InvalidRootEntry { detail: detail@ },
            StoreMetadataIssue::WrongOwner { expected_uid, actual_uid } =>
                StoreMetadataIssue::WrongOwner { expected_uid, actual_uid },
            StoreMetadataIssue::UnexpectedMode { actual } =>
                StoreMetadataIssue::UnexpectedMode { actual },
            StoreMetadataIssue::MultipleLinks { links } =>
                StoreMetadataIssue::MultipleLinks { links },
            StoreMetadataIssue::ObservationChanged => StoreMetadataIssue::ObservationChanged,
            StoreMetadataIssue::InvalidDescriptor { detail } =>
                StoreMetadataIssue::InvalidDescriptor { detail: detail@ },
        }
    }
}

/// The message of a value.
pub open spec fn store_metadata_issue_message(issue: StoreMetadataIssue<Seq<char>>) -> Seq<char> {
    match issue {
        StoreMetadataIssue::MarkerMissingWithOtherEntries =>
            "descriptor.json is missing but the state root is not empty"@,
        StoreMetadataIssue::MarkerNotRegular => "descriptor.json is not a regular file"@,
        StoreMetadataIssue::MarkerTooLarge { limit, actual } =>
            "descriptor.json is "@ + text::decimal(actual as nat) + " bytes; limit is "@
            + text::decimal(limit as nat),
        StoreMetadataIssue::UnexpectedRootEntry =>
            "state root contains an unrecognized top-level entry"@,
        StoreMetadataIssue::InvalidRootEntry { detail } =>
            "invalid top-level final-root entry: "@ + detail,
        StoreMetadataIssue::WrongOwner { expected_uid, actual_uid } =>
            "descriptor.json is owned by uid "@ + text::decimal(actual_uid as nat)
            + ", not current effective uid "@ + text::decimal(expected_uid as nat),
        StoreMetadataIssue::UnexpectedMode { actual } =>
            "descriptor.json mode must be 0600, found "@ + text::octal4(actual as nat),
        StoreMetadataIssue::MultipleLinks { links } =>
            "descriptor.json must have one link, found "@ + text::decimal(links as nat),
        StoreMetadataIssue::ObservationChanged =>
            "descriptor.json changed while it was being inspected"@,
        StoreMetadataIssue::InvalidDescriptor { detail } =>
            "invalid final-root descriptor: "@ + detail,
    }
}

impl StoreMetadataIssue<String> {
    /// Returns the message.
    pub fn message(&self) -> (message: String)
        ensures
            message@ == store_metadata_issue_message(self@),
    {
        match self {
            StoreMetadataIssue::MarkerMissingWithOtherEntries =>
                "descriptor.json is missing but the state root is not empty".to_owned(),
            StoreMetadataIssue::MarkerNotRegular =>
                "descriptor.json is not a regular file".to_owned(),
            StoreMetadataIssue::MarkerTooLarge { limit, actual } => {
                let mut message = "descriptor.json is ".to_owned();
                message.append(decimal_text(*actual).as_str());
                message.append(" bytes; limit is ");
                message.append(decimal_text(*limit as u64).as_str());
                message
            },
            StoreMetadataIssue::UnexpectedRootEntry =>
                "state root contains an unrecognized top-level entry".to_owned(),
            StoreMetadataIssue::InvalidRootEntry { detail } => {
                let mut message = "invalid top-level final-root entry: ".to_owned();
                message.append(detail.as_str());
                message
            },
            StoreMetadataIssue::WrongOwner { expected_uid, actual_uid } => {
                let mut message = "descriptor.json is owned by uid ".to_owned();
                message.append(decimal_text(*actual_uid as u64).as_str());
                message.append(", not current effective uid ");
                message.append(decimal_text(*expected_uid as u64).as_str());
                message
            },
            StoreMetadataIssue::UnexpectedMode { actual } => {
                let mut message = "descriptor.json mode must be 0600, found ".to_owned();
                message.append(octal4_text(*actual).as_str());
                message
            },
            StoreMetadataIssue::MultipleLinks { links } => {
                let mut message = "descriptor.json must have one link, found ".to_owned();
                message.append(decimal_text(*links).as_str());
                message
            },
            StoreMetadataIssue::ObservationChanged =>
                "descriptor.json changed while it was being inspected".to_owned(),
            StoreMetadataIssue::InvalidDescriptor { detail } => {
                let mut message = "invalid final-root descriptor: ".to_owned();
                message.append(detail.as_str());
                message
            },
        }
    }
}

/// Typed reason a v1 pack object or its private containers were rejected.
#[derive(Clone, Debug, PartialEq, Eq)]
#[non_exhaustive]
#[allow(inconsistent_fields)]
pub enum PackObjectIssue<T = String> {
    /// The requested object is not present.
    Missing,
    /// An object-store container is not a directory.
    ContainerNotDirectory,
    /// A stored object is not a regular file.
    ObjectNotRegular,
    /// A container or object has an unexpected owner.
    WrongOwner { expected_uid: u32, actual_uid: u32 },
    /// A container or object has unexpected permission or special bits.
    UnexpectedMode { expected: u32, actual: u32 },
    /// An object has an unexpected hard-link count.
    UnexpectedLinks { expected: u64, actual: u64 },
    /// Encoded bytes exceed the object limit.
    ObjectTooLarge { limit: u64, actual: u64 },
    /// Bytes do not have the requested identity.
    DigestMismatch { actual: T },
    /// Bytes are malformed.
    InvalidEncoding { detail: T },
    /// A pinned object, container, or binding changed during the operation.
    ObservationChanged,
}

impl View for PackObjectIssue<String> {
    type V = PackObjectIssue<Seq<char>>;

    open spec fn view(&self) -> PackObjectIssue<Seq<char>> {
        match *self {
            PackObjectIssue::Missing => PackObjectIssue::Missing,
            PackObjectIssue::ContainerNotDirectory => PackObjectIssue::ContainerNotDirectory,
            PackObjectIssue::ObjectNotRegular => PackObjectIssue::ObjectNotRegular,
            PackObjectIssue::WrongOwner { expected_uid, actual_uid } =>
                PackObjectIssue::WrongOwner { expected_uid, actual_uid },
            PackObjectIssue::UnexpectedMode { expected, actual } =>
                PackObjectIssue::UnexpectedMode { expected, actual },
            PackObjectIssue::UnexpectedLinks { expected, actual } =>
                PackObjectIssue::UnexpectedLinks { expected, actual },
            PackObjectIssue::ObjectTooLarge { limit, actual } =>
                PackObjectIssue::ObjectTooLarge { limit, actual },
            PackObjectIssue::DigestMismatch { actual } =>
                PackObjectIssue::DigestMismatch { actual: actual@ },
            PackObjectIssue::InvalidEncoding { detail } =>
                PackObjectIssue::InvalidEncoding { detail: detail@ },
            PackObjectIssue::ObservationChanged => PackObjectIssue::ObservationChanged,
        }
    }
}

/// The message of a value.
pub open spec fn pack_object_issue_message(issue: PackObjectIssue<Seq<char>>) -> Seq<char> {
    match issue {
        PackObjectIssue::Missing => "object is not cached"@,
        PackObjectIssue::ContainerNotDirectory => "object-store container is not a directory"@,
        PackObjectIssue::ObjectNotRegular => "object is not a regular file"@,
        PackObjectIssue::WrongOwner { expected_uid, actual_uid } =>
            "owner uid must be "@ + text::decimal(expected_uid as nat) + ", found "@
            + text::decimal(actual_uid as nat),
        PackObjectIssue::UnexpectedMode { expected, actual } =>
            "mode must be "@ + text::octal4(expected as nat) + ", found "@
            + text::octal4(actual as nat),
        PackObjectIssue::UnexpectedLinks { expected, actual } =>
            "link count must be "@ + text::decimal(expected as nat) + ", found "@
            + text::decimal(actual as nat),
        PackObjectIssue::ObjectTooLarge { limit, actual } =>
            "object is "@ + text::decimal(actual as nat) + " bytes; limit is "@
            + text::decimal(limit as nat),
        PackObjectIssue::DigestMismatch { actual } => "object bytes compute digest "@ + actual,
        PackObjectIssue::InvalidEncoding { detail } => detail,
        PackObjectIssue::ObservationChanged =>
            "object-store observation changed during the operation"@,
    }
}

impl PackObjectIssue<String> {
    /// Returns the message.
    pub fn message(&self) -> (message: String)
        ensures
            message@ == pack_object_issue_message(self@),
    {
        match self {
            PackObjectIssue::Missing => "object is not cached".to_owned(),
            PackObjectIssue::ContainerNotDirectory =>
                "object-store container is not a directory".to_owned(),
            PackObjectIssue::ObjectNotRegular => "object is not a regular file".to_owned(),
            PackObjectIssue::WrongOwner { expected_uid, actual_uid } => {
                let mut message = "owner uid must be ".to_owned();
                message.append(decimal_text(*expected_uid as u64).as_str());
                message.append(", found ");
                message.append(decimal_text(*actual_uid as u64).as_str());
                message
            },
            PackObjectIssue::UnexpectedMode { expected, actual } => {
                let mut message = "mode must be ".to_owned();
                message.append(octal4_text(*expected).as_str());
                message.append(", found ");
                message.append(octal4_text(*actual).as_str());
                message
            },
            PackObjectIssue::UnexpectedLinks { expected, actual } => {
                let mut message = "link count must be ".to_owned();
                message.append(decimal_text(*expected).as_str());
                message.append(", found ");
                message.append(decimal_text(*actual).as_str());
                message
            },
            PackObjectIssue::ObjectTooLarge { limit, actual } => {
                let mut message = "object is ".to_owned();
                message.append(decimal_text(*actual).as_str());
                message.append(" bytes; limit is ");
                message.append(decimal_text(*limit).as_str());
                message
            },
            PackObjectIssue::DigestMismatch { actual } => {
                let mut message = "object bytes compute digest ".to_owned();
                message.append(actual.as_str());
                message
            },
            PackObjectIssue::InvalidEncoding { detail } => detail.clone(),
            PackObjectIssue::ObservationChanged =>
                "object-store observation changed during the operation".to_owned(),
        }
    }
}

/// Typed reason a canonical object or one of its private containers was rejected.
#[derive(Clone, Debug, PartialEq, Eq)]
#[non_exhaustive]
#[allow(inconsistent_fields)]
pub enum CanonicalObjectIssue<T = String> {
    /// The requested object is not present.
    Missing,
    /// An object-store container is not a directory.
    ContainerNotDirectory,
    /// A stored object is not a regular file.
    ObjectNotRegular,
    /// A container or object has an unexpected owner.
    WrongOwner { expected_uid: u32, actual_uid: u32 },
    /// A container or object has unexpected permission or special bits.
    UnexpectedMode { expected: u32, actual: u32 },
    /// An object has an unexpected hard-link count.
    UnexpectedLinks { expected: u64, actual: u64 },
    /// Encoded bytes exceed the object limit.
    ObjectTooLarge { limit: u64, actual: u64 },
    /// Bytes do not have the requested identity.
    DigestMismatch { actual: T },
    /// Bytes are malformed.
    InvalidEncoding { detail: T },
    /// A pinned object, container, or binding changed during the operation.
    ObservationChanged,
}

impl View for CanonicalObjectIssue<String> {
    type V = CanonicalObjectIssue<Seq<char>>;

    open spec fn view(&self) -> CanonicalObjectIssue<Seq<char>> {
        match *self {
            CanonicalObjectIssue::Missing => CanonicalObjectIssue::Missing,
            CanonicalObjectIssue::ContainerNotDirectory =>
                CanonicalObjectIssue::ContainerNotDirectory,
            CanonicalObjectIssue::ObjectNotRegular => CanonicalObjectIssue::ObjectNotRegular,
            CanonicalObjectIssue::WrongOwner { expected_uid, actual_uid } =>
                CanonicalObjectIssue::WrongOwner { expected_uid, actual_uid },
            CanonicalObjectIssue::UnexpectedMode { expected, actual } =>
                CanonicalObjectIssue::UnexpectedMode { expected, actual },
            CanonicalObjectIssue::UnexpectedLinks { expected, actual } =>
                CanonicalObjectIssue::UnexpectedLinks { expected, actual },
            CanonicalObjectIssue::ObjectTooLarge { limit, actual } =>
                CanonicalObjectIssue::ObjectTooLarge { limit, actual },
            CanonicalObjectIssue::DigestMismatch { actual } =>
                CanonicalObjectIssue::DigestMismatch { actual: actual@ },
            CanonicalObjectIssue::InvalidEncoding { detail } =>
                CanonicalObjectIssue::InvalidEncoding { detail: detail@ },
            CanonicalObjectIssue::ObservationChanged => CanonicalObjectIssue::ObservationChanged,
        }
    }
}

/// The message of a value.
pub open spec fn canonical_object_issue_message(issue: CanonicalObjectIssue<Seq<char>>) -> Seq<char> {
    match issue {
        CanonicalObjectIssue::Missing => "object is not cached"@,
        CanonicalObjectIssue::ContainerNotDirectory =>
            "canonical-object container is not a directory"@,
        CanonicalObjectIssue::ObjectNotRegular => "object is not a regular file"@,
        CanonicalObjectIssue::WrongOwner { expected_uid, actual_uid } =>
            "owner uid must be "@ + text::decimal(expected_uid as nat) + ", found "@
            + text::decimal(actual_uid as nat),
        CanonicalObjectIssue::UnexpectedMode { expected, actual } =>
            "mode must be "@ + text::octal4(expected as nat) + ", found "@
            + text::octal4(actual as nat),
        CanonicalObjectIssue::UnexpectedLinks { expected, actual } =>
            "link count must be "@ + text::decimal(expected as nat) + ", found "@
            + text::decimal(actual as nat),
        CanonicalObjectIssue::ObjectTooLarge { limit, actual } =>
            "object is "@ + text::decimal(actual as nat) + " bytes; limit is "@
            + text::decimal(limit as nat),
        CanonicalObjectIssue::DigestMismatch { actual } =>
            "object bytes compute digest "@ + actual,
        CanonicalObjectIssue::InvalidEncoding { detail } => detail,
        CanonicalObjectIssue::ObservationChanged =>
            "canonical-object observation changed during the operation"@,
    }
}

impl CanonicalObjectIssue<String> {
    /// Returns the message.
    pub fn message(&self) -> (message: String)
        ensures
            message@ == canonical_object_issue_message(self@),
    {
        match self {
            CanonicalObjectIssue::Missing => "object is not cached".to_owned(),
            CanonicalObjectIssue::ContainerNotDirectory =>
                "canonical-object container is not a directory".to_owned(),
            CanonicalObjectIssue::ObjectNotRegular => "object is not a regular file".to_owned(),
            CanonicalObjectIssue::WrongOwner { expected_uid, actual_uid } => {
                let mut message = "owner uid must be ".to_owned();
                message.append(decimal_text(*expected_uid as u64).as_str());
                message.append(", found ");
                message.append(decimal_text(*actual_uid as u64).as_str());
                message
            },
            CanonicalObjectIssue::UnexpectedMode { expected, actual } => {
                let mut message = "mode must be ".to_owned();
                message.append(octal4_text(*expected).as_str());
                message.append(", found ");
                message.append(octal4_text(*actual).as_str());
                message
            },
            CanonicalObjectIssue::UnexpectedLinks { expected, actual } => {
                let mut message = "link count must be ".to_owned();
                message.append(decimal_text(*expected).as_str());
                message.append(", found ");
                message.append(decimal_text(*actual).as_str());
                message
            },
            CanonicalObjectIssue::ObjectTooLarge { limit, actual } => {
                let mut message = "object is ".to_owned();
                message.append(decimal_text(*actual).as_str());
                message.append(" bytes; limit is ");
                message.append(decimal_text(*limit).as_str());
                message
            },
            CanonicalObjectIssue::DigestMismatch { actual } => {
                let mut message = "object bytes compute digest ".to_owned();
                message.append(actual.as_str());
                message
            },
            CanonicalObjectIssue::InvalidEncoding { detail } => detail.clone(),
            CanonicalObjectIssue::ObservationChanged =>
                "canonical-object observation changed during the operation".to_owned(),
        }
    }
}

/// Typed reason a local pack source could not be captured safely.
#[derive(Clone, Debug, PartialEq, Eq)]
#[non_exhaustive]
#[allow(inconsistent_fields)]
pub enum PackCaptureIssue<T = String> {
    /// The explicit source root was not absolute.
    SourceRootMustBeAbsolute,
    /// The explicit source root does not exist.
    SourceRootMissing,
    /// The source root or one of its path components is not a directory.
    SourceRootNotDirectory,
    /// The source overlaps an Engine state authority.
    ProtectedStateOverlap,
    /// A non-reserved source entry name is not UTF-8.
    NonUtf8Name,
    /// A source-relative path is invalid under `pack/v1`.
    InvalidPath { detail: T },
    /// A non-reserved source entry is a symbolic link.
    SymbolicLink,
    /// A non-reserved source entry is neither a directory nor a regular file.
    UnsupportedFileType,
    /// Traversal attempted to cross a mount below the selected source root.
    MountBoundary,
    /// A source regular file has another hard-link alias.
    UnexpectedLinks { expected: u64, actual: u64 },
    /// One source file exceeds the pack limit.
    FileTooLarge { limit: u64, actual: u64 },
    /// The source contains too many included regular files.
    TooManyFiles { limit: usize, actual: usize },
    /// Included source bytes exceed the pack-tree limit.
    TreeTooLarge { limit: u64, actual: u64 },
    /// Filesystem traversal exceeded its bounded entry budget.
    TraversalLimitExceeded { limit: usize },
    /// The source does not contain the required root manifest.
    MissingManifest,
    /// Captured bytes do not match the digest required by the lock.
    DigestMismatch { expected: T, actual: T },
    /// The captured pack manifest or one of its declared files is invalid.
    InvalidPack { detail: T },
    /// A source entry, binding, or directory changed during capture.
    ObservationChanged,
}

impl View for PackCaptureIssue<String> {
    type V = PackCaptureIssue<Seq<char>>;

    open spec fn view(&self) -> PackCaptureIssue<Seq<char>> {
        match *self {
            PackCaptureIssue::SourceRootMustBeAbsolute => PackCaptureIssue::SourceRootMustBeAbsolute,
            PackCaptureIssue::SourceRootMissing => PackCaptureIssue::SourceRootMissing,
            PackCaptureIssue::SourceRootNotDirectory => PackCaptureIssue::SourceRootNotDirectory,
            PackCaptureIssue::ProtectedStateOverlap => PackCaptureIssue::ProtectedStateOverlap,
            PackCaptureIssue::NonUtf8Name => PackCaptureIssue::NonUtf8Name,
            PackCaptureIssue::InvalidPath { detail } =>
                PackCaptureIssue::InvalidPath { detail: detail@ },
            PackCaptureIssue::SymbolicLink => PackCaptureIssue::SymbolicLink,
            PackCaptureIssue::UnsupportedFileType => PackCaptureIssue::UnsupportedFileType,
            PackCaptureIssue::MountBoundary => PackCaptureIssue::MountBoundary,
            PackCaptureIssue::UnexpectedLinks { expected, actual } =>
                PackCaptureIssue::UnexpectedLinks { expected, actual },
            PackCaptureIssue::FileTooLarge { limit, actual } =>
                PackCaptureIssue::FileTooLarge { limit, actual },
            PackCaptureIssue::TooManyFiles { limit, actual } =>
                PackCaptureIssue::TooManyFiles { limit, actual },
            PackCaptureIssue::TreeTooLarge { limit, actual } =>
                PackCaptureIssue::TreeTooLarge { limit, actual },
            PackCaptureIssue::TraversalLimitExceeded { limit } =>
                PackCaptureIssue::TraversalLimitExceeded { limit },
            PackCaptureIssue::MissingManifest => PackCaptureIssue::MissingManifest,
            PackCaptureIssue::DigestMismatch { expected, actual } =>
                PackCaptureIssue::DigestMismatch { expected: expected@, actual: actual@ },
            PackCaptureIssue::InvalidPack { detail } =>
                PackCaptureIssue::InvalidPack { detail: detail@ },
            PackCaptureIssue::ObservationChanged => PackCaptureIssue::ObservationChanged,
        }
    }
}

/// The message of a value.
pub open spec fn pack_capture_issue_message(issue: PackCaptureIssue<Seq<char>>) -> Seq<char> {
    match issue {
        PackCaptureIssue::SourceRootMustBeAbsolute => "source root must be absolute"@,
        PackCaptureIssue::SourceRootMissing => "source root does not exist"@,
        PackCaptureIssue::SourceRootNotDirectory => "source root path contains a non-directory"@,
        PackCaptureIssue::ProtectedStateOverlap => "source overlaps the protected state root"@,
        PackCaptureIssue::NonUtf8Name => "source entry name is not UTF-8"@,
        PackCaptureIssue::InvalidPath { detail } => detail,
        PackCaptureIssue::SymbolicLink => "symbolic links are not valid pack entries"@,
        PackCaptureIssue::UnsupportedFileType => "special files are not valid pack entries"@,
        PackCaptureIssue::MountBoundary => "source traversal cannot cross a nested mount"@,
        PackCaptureIssue::UnexpectedLinks { expected, actual } =>
            "link count must be "@ + text::decimal(expected as nat) + ", found "@
            + text::decimal(actual as nat),
        PackCaptureIssue::FileTooLarge { limit, actual } =>
            "source file is "@ + text::decimal(actual as nat) + " bytes; limit is "@
            + text::decimal(limit as nat),
        PackCaptureIssue::TooManyFiles { limit, actual } =>
            "source contains "@ + text::decimal(actual as nat) + " files; limit is "@
            + text::decimal(limit as nat),
        PackCaptureIssue::TreeTooLarge { limit, actual } =>
            "source contains "@ + text::decimal(actual as nat) + " file bytes; limit is "@
            + text::decimal(limit as nat),
        PackCaptureIssue::TraversalLimitExceeded { limit } =>
            "source traversal exceeds "@ + text::decimal(limit as nat) + " entries"@,
        PackCaptureIssue::MissingManifest => "source is missing malm-pack.kdl"@,
        PackCaptureIssue::DigestMismatch { expected, actual } =>
            "local source drift: lock requires "@ + expected + ", captured "@ + actual,
        PackCaptureIssue::InvalidPack { detail } => "invalid captured pack: "@ + detail,
        PackCaptureIssue::ObservationChanged => "source changed while it was being captured"@,
    }
}

impl PackCaptureIssue<String> {
    /// Returns the message.
    pub fn message(&self) -> (message: String)
        ensures
            message@ == pack_capture_issue_message(self@),
    {
        match self {
            PackCaptureIssue::SourceRootMustBeAbsolute => "source root must be absolute".to_owned(),
            PackCaptureIssue::SourceRootMissing => "source root does not exist".to_owned(),
            PackCaptureIssue::SourceRootNotDirectory =>
                "source root path contains a non-directory".to_owned(),
            PackCaptureIssue::ProtectedStateOverlap =>
                "source overlaps the protected state root".to_owned(),
            PackCaptureIssue::NonUtf8Name => "source entry name is not UTF-8".to_owned(),
            PackCaptureIssue::InvalidPath { detail } => detail.clone(),
            PackCaptureIssue::SymbolicLink =>
                "symbolic links are not valid pack entries".to_owned(),
            PackCaptureIssue::UnsupportedFileType =>
                "special files are not valid pack entries".to_owned(),
            PackCaptureIssue::MountBoundary =>
                "source traversal cannot cross a nested mount".to_owned(),
            PackCaptureIssue::UnexpectedLinks { expected, actual } => {
                let mut message = "link count must be ".to_owned();
                message.append(decimal_text(*expected).as_str());
                message.append(", found ");
                message.append(decimal_text(*actual).as_str());
                message
            },
            PackCaptureIssue::FileTooLarge { limit, actual } => {
                let mut message = "source file is ".to_owned();
                message.append(decimal_text(*actual).as_str());
                message.append(" bytes; limit is ");
                message.append(decimal_text(*limit).as_str());
                message
            },
            PackCaptureIssue::TooManyFiles { limit, actual } => {
                let mut message = "source contains ".to_owned();
                message.append(decimal_text(*actual as u64).as_str());
                message.append(" files; limit is ");
                message.append(decimal_text(*limit as u64).as_str());
                message
            },
            PackCaptureIssue::TreeTooLarge { limit, actual } => {
                let mut message = "source contains ".to_owned();
                message.append(decimal_text(*actual).as_str());
                message.append(" file bytes; limit is ");
                message.append(decimal_text(*limit).as_str());
                message
            },
            PackCaptureIssue::TraversalLimitExceeded { limit } => {
                let mut message = "source traversal exceeds ".to_owned();
                message.append(decimal_text(*limit as u64).as_str());
                message.append(" entries");
                message
            },
            PackCaptureIssue::MissingManifest => "source is missing malm-pack.kdl".to_owned(),
            PackCaptureIssue::DigestMismatch { expected, actual } => {
                let mut message = "local source drift: lock requires ".to_owned();
                message.append(expected.as_str());
                message.append(", captured ");
                message.append(actual.as_str());
                message
            },
            PackCaptureIssue::InvalidPack { detail } => {
                let mut message = "invalid captured pack: ".to_owned();
                message.append(detail.as_str());
                message
            },
            PackCaptureIssue::ObservationChanged =>
                "source changed while it was being captured".to_owned(),
        }
    }
}

/// Typed reason prepared-plan storage or target observation failed.
#[derive(Clone, Debug, PartialEq, Eq)]
#[non_exhaustive]
#[allow(inconsistent_fields)]
pub enum PreparedStoreIssue<T = String> {
    /// Another operation holds the prepared store.
    PublicationBusy,
    /// The plan is not stored.
    MissingPlan,
    /// The artifact bytes are not stored.
    MissingBlob,
    /// A container is not a directory.
    ContainerNotDirectory,
    /// An entry is not a regular file.
    EntryNotRegular,
    /// An entry has another owner.
    WrongOwner { expected_uid: u32, actual_uid: u32 },
    /// An entry has another mode.
    UnexpectedMode { expected: u32, actual: u32 },
    /// An entry has another link count.
    UnexpectedLinks { expected: u64, actual: u64 },
    /// An entry has too many bytes.
    EntryTooLarge { limit: u64, actual: u64 },
    /// An entry has another digest.
    DigestMismatch { expected: T, actual: T },
    /// A record is invalid.
    InvalidRecord { detail: T },
    /// A store entry or a target changed.
    ObservationChanged,
    /// The head moved; heads stand here as debugging output writes them.
    StaleNamespaceHead { namespace: T, expected: Option<T>, actual: Option<T> },
    /// Another namespace owns the target.
    TargetOwnershipConflict {
        requesting_namespace: T,
        owning_namespace: T,
        requesting_authority: T,
        owning_authority: T,
        requested_path: T,
        owned_path: T,
        overlap: T,
    },
    /// The namespace does not own the target.
    UnownedTargetMutation { namespace: T, authority: T, relative_path: T },
    /// The authority is not configured.
    UnknownTargetAuthority(T),
    /// Directories stand where targets belong.
    DirectoryOccupancyConflicts { retained: usize, omitted_count: usize },
    /// A managed target's content drifted and the plan cannot restore it.
    UnrestorableLocalModification { authority: T, relative_path: T },
    /// A managed target was deleted and the plan cannot recreate it.
    UnrestorableMissingTarget { authority: T, relative_path: T },
    /// An ancestor directory is missing and the plan does not create it.
    MissingManagedAncestor { authority: T, relative_path: T, missing_prefix: T },
    /// The target is unsafe.
    UnsafeTarget { detail: T },
    /// An operation names an artifact that the plan lacks.
    UnknownArtifact(T),
}

impl View for PreparedStoreIssue<String> {
    type V = PreparedStoreIssue<Seq<char>>;

    open spec fn view(&self) -> PreparedStoreIssue<Seq<char>> {
        match *self {
            PreparedStoreIssue::PublicationBusy => PreparedStoreIssue::PublicationBusy,
            PreparedStoreIssue::MissingPlan => PreparedStoreIssue::MissingPlan,
            PreparedStoreIssue::MissingBlob => PreparedStoreIssue::MissingBlob,
            PreparedStoreIssue::ContainerNotDirectory => PreparedStoreIssue::ContainerNotDirectory,
            PreparedStoreIssue::EntryNotRegular => PreparedStoreIssue::EntryNotRegular,
            PreparedStoreIssue::WrongOwner { expected_uid, actual_uid } =>
                PreparedStoreIssue::WrongOwner { expected_uid, actual_uid },
            PreparedStoreIssue::UnexpectedMode { expected, actual } =>
                PreparedStoreIssue::UnexpectedMode { expected, actual },
            PreparedStoreIssue::UnexpectedLinks { expected, actual } =>
                PreparedStoreIssue::UnexpectedLinks { expected, actual },
            PreparedStoreIssue::EntryTooLarge { limit, actual } =>
                PreparedStoreIssue::EntryTooLarge { limit, actual },
            PreparedStoreIssue::DigestMismatch { expected, actual } =>
                PreparedStoreIssue::DigestMismatch { expected: expected@, actual: actual@ },
            PreparedStoreIssue::InvalidRecord { detail } =>
                PreparedStoreIssue::InvalidRecord { detail: detail@ },
            PreparedStoreIssue::ObservationChanged => PreparedStoreIssue::ObservationChanged,
            PreparedStoreIssue::StaleNamespaceHead { namespace, expected, actual } =>
                PreparedStoreIssue::StaleNamespaceHead {
                namespace: namespace@,
                expected: match expected {
                    Some(expected) => Some(expected@),
                    None => None,
                },
                actual: match actual {
                    Some(actual) => Some(actual@),
                    None => None,
                },
            },
            PreparedStoreIssue::TargetOwnershipConflict { requesting_namespace, owning_namespace, requesting_authority, owning_authority, requested_path, owned_path, overlap } =>
                PreparedStoreIssue::TargetOwnershipConflict {
                requesting_namespace: requesting_namespace@,
                owning_namespace: owning_namespace@,
                requesting_authority: requesting_authority@,
                owning_authority: owning_authority@,
                requested_path: requested_path@,
                owned_path: owned_path@,
                overlap: overlap@,
            },
            PreparedStoreIssue::UnownedTargetMutation { namespace, authority, relative_path } =>
                PreparedStoreIssue::UnownedTargetMutation {
                namespace: namespace@,
                authority: authority@,
                relative_path: relative_path@,
            },
            PreparedStoreIssue::UnknownTargetAuthority(authority) =>
                PreparedStoreIssue::UnknownTargetAuthority(authority@),
            PreparedStoreIssue::DirectoryOccupancyConflicts { retained, omitted_count } =>
                PreparedStoreIssue::DirectoryOccupancyConflicts { retained, omitted_count },
            PreparedStoreIssue::UnrestorableLocalModification { authority, relative_path } =>
                PreparedStoreIssue::UnrestorableLocalModification {
                authority: authority@,
                relative_path: relative_path@,
            },
            PreparedStoreIssue::UnrestorableMissingTarget { authority, relative_path } =>
                PreparedStoreIssue::UnrestorableMissingTarget {
                authority: authority@,
                relative_path: relative_path@,
            },
            PreparedStoreIssue::MissingManagedAncestor { authority, relative_path, missing_prefix } =>
                PreparedStoreIssue::MissingManagedAncestor {
                authority: authority@,
                relative_path: relative_path@,
                missing_prefix: missing_prefix@,
            },
            PreparedStoreIssue::UnsafeTarget { detail } =>
                PreparedStoreIssue::UnsafeTarget { detail: detail@ },
            PreparedStoreIssue::UnknownArtifact(artifact) =>
                PreparedStoreIssue::UnknownArtifact(artifact@),
        }
    }
}

/// The message of a value.
pub open spec fn prepared_store_issue_message(issue: PreparedStoreIssue<Seq<char>>) -> Seq<char> {
    match issue {
        PreparedStoreIssue::PublicationBusy =>
            "another prepared-store publication or retention operation is in progress"@,
        PreparedStoreIssue::MissingPlan => "prepared plan is missing"@,
        PreparedStoreIssue::MissingBlob => "prepared artifact blob is missing"@,
        PreparedStoreIssue::ContainerNotDirectory => "store container is not a directory"@,
        PreparedStoreIssue::EntryNotRegular => "store entry is not a regular file"@,
        PreparedStoreIssue::WrongOwner { expected_uid, actual_uid } =>
            "store entry is owned by uid "@ + text::decimal(actual_uid as nat) + ", expected "@
            + text::decimal(expected_uid as nat),
        PreparedStoreIssue::UnexpectedMode { expected, actual } =>
            "store entry mode is "@ + text::octal4(actual as nat) + ", expected "@
            + text::octal4(expected as nat),
        PreparedStoreIssue::UnexpectedLinks { expected, actual } =>
            "store entry has "@ + text::decimal(actual as nat) + " links, expected "@
            + text::decimal(expected as nat),
        PreparedStoreIssue::EntryTooLarge { limit, actual } =>
            "store entry has "@ + text::decimal(actual as nat) + " bytes; limit is "@
            + text::decimal(limit as nat),
        PreparedStoreIssue::DigestMismatch { expected, actual } =>
            "store entry digest mismatch: expected "@ + expected + ", computed "@ + actual,
        PreparedStoreIssue::InvalidRecord { detail } => "invalid prepared record: "@ + detail,
        PreparedStoreIssue::ObservationChanged => "store or target observation changed"@,
        PreparedStoreIssue::StaleNamespaceHead { namespace, expected, actual } =>
            "namespace "@ + namespace + " head is stale: expected "@
            + optional_notation(expected) + ", found "@ + optional_notation(actual),
        PreparedStoreIssue::TargetOwnershipConflict { requesting_namespace, owning_namespace, requesting_authority, owning_authority, requested_path, owned_path, overlap } =>
            "namespace "@ + requesting_namespace + " target "@ + requesting_authority + ":"@
            + requested_path + " has an "@ + overlap + " ownership conflict with namespace "@
            + owning_namespace + " target "@ + owning_authority + ":"@ + owned_path,
        PreparedStoreIssue::UnownedTargetMutation { namespace, authority, relative_path } =>
            "namespace "@ + namespace + " cannot mutate unowned target "@ + authority + ":"@
            + relative_path,
        PreparedStoreIssue::UnknownTargetAuthority(authority) =>
            "target authority "@ + authority + " is not configured"@,
        PreparedStoreIssue::DirectoryOccupancyConflicts { retained, omitted_count } =>
            "directory occupancy conflicts block target preparation ("@
            + text::decimal(retained as nat) + " paths retained, "@
            + text::decimal(omitted_count as nat) + " omitted)"@,
        PreparedStoreIssue::UnrestorableLocalModification { authority, relative_path } =>
            "target "@ + authority + ":"@ + relative_path
            + " was modified outside malm and this plan cannot restore it; run `malm apply` to restore the managed content, or update the source to adopt the local changes"@,
        PreparedStoreIssue::UnrestorableMissingTarget { authority, relative_path } =>
            "target "@ + authority + ":"@ + relative_path
            + " was deleted outside malm and this plan cannot recreate it; run `malm apply` to restore the managed content, or update the source to drop the target"@,
        PreparedStoreIssue::MissingManagedAncestor { authority, relative_path, missing_prefix } =>
            "target "@ + authority + ":"@ + relative_path + " lies under missing directory "@
            + authority + ":"@ + missing_prefix
            + " and this plan does not create it; run `malm apply` to restore the managed directory"@,
        PreparedStoreIssue::UnsafeTarget { detail } => "unsafe managed target: "@ + detail,
        PreparedStoreIssue::UnknownArtifact(artifact) =>
            "operation references artifact "@ + artifact,
    }
}

impl PreparedStoreIssue<String> {
    /// Returns the message.
    pub fn message(&self) -> (message: String)
        ensures
            message@ == prepared_store_issue_message(self@),
    {
        match self {
            PreparedStoreIssue::PublicationBusy =>
                "another prepared-store publication or retention operation is in progress".to_owned(),
            PreparedStoreIssue::MissingPlan => "prepared plan is missing".to_owned(),
            PreparedStoreIssue::MissingBlob => "prepared artifact blob is missing".to_owned(),
            PreparedStoreIssue::ContainerNotDirectory =>
                "store container is not a directory".to_owned(),
            PreparedStoreIssue::EntryNotRegular => "store entry is not a regular file".to_owned(),
            PreparedStoreIssue::WrongOwner { expected_uid, actual_uid } => {
                let mut message = "store entry is owned by uid ".to_owned();
                message.append(decimal_text(*actual_uid as u64).as_str());
                message.append(", expected ");
                message.append(decimal_text(*expected_uid as u64).as_str());
                message
            },
            PreparedStoreIssue::UnexpectedMode { expected, actual } => {
                let mut message = "store entry mode is ".to_owned();
                message.append(octal4_text(*actual).as_str());
                message.append(", expected ");
                message.append(octal4_text(*expected).as_str());
                message
            },
            PreparedStoreIssue::UnexpectedLinks { expected, actual } => {
                let mut message = "store entry has ".to_owned();
                message.append(decimal_text(*actual).as_str());
                message.append(" links, expected ");
                message.append(decimal_text(*expected).as_str());
                message
            },
            PreparedStoreIssue::EntryTooLarge { limit, actual } => {
                let mut message = "store entry has ".to_owned();
                message.append(decimal_text(*actual).as_str());
                message.append(" bytes; limit is ");
                message.append(decimal_text(*limit).as_str());
                message
            },
            PreparedStoreIssue::DigestMismatch { expected, actual } => {
                let mut message = "store entry digest mismatch: expected ".to_owned();
                message.append(expected.as_str());
                message.append(", computed ");
                message.append(actual.as_str());
                message
            },
            PreparedStoreIssue::InvalidRecord { detail } => {
                let mut message = "invalid prepared record: ".to_owned();
                message.append(detail.as_str());
                message
            },
            PreparedStoreIssue::ObservationChanged =>
                "store or target observation changed".to_owned(),
            PreparedStoreIssue::StaleNamespaceHead { namespace, expected, actual } => {
                let mut message = "namespace ".to_owned();
                message.append(namespace.as_str());
                message.append(" head is stale: expected ");
                message.append(optional_text(expected).as_str());
                message.append(", found ");
                message.append(optional_text(actual).as_str());
                message
            },
            PreparedStoreIssue::TargetOwnershipConflict { requesting_namespace, owning_namespace, requesting_authority, owning_authority, requested_path, owned_path, overlap } => {
                let mut message = "namespace ".to_owned();
                message.append(requesting_namespace.as_str());
                message.append(" target ");
                message.append(requesting_authority.as_str());
                message.append(":");
                message.append(requested_path.as_str());
                message.append(" has an ");
                message.append(overlap.as_str());
                message.append(" ownership conflict with namespace ");
                message.append(owning_namespace.as_str());
                message.append(" target ");
                message.append(owning_authority.as_str());
                message.append(":");
                message.append(owned_path.as_str());
                message
            },
            PreparedStoreIssue::UnownedTargetMutation { namespace, authority, relative_path } => {
                let mut message = "namespace ".to_owned();
                message.append(namespace.as_str());
                message.append(" cannot mutate unowned target ");
                message.append(authority.as_str());
                message.append(":");
                message.append(relative_path.as_str());
                message
            },
            PreparedStoreIssue::UnknownTargetAuthority(authority) => {
                let mut message = "target authority ".to_owned();
                message.append(authority.as_str());
                message.append(" is not configured");
                message
            },
            PreparedStoreIssue::DirectoryOccupancyConflicts { retained, omitted_count } => {
                let mut message = "directory occupancy conflicts block target preparation (".to_owned();
                message.append(decimal_text(*retained as u64).as_str());
                message.append(" paths retained, ");
                message.append(decimal_text(*omitted_count as u64).as_str());
                message.append(" omitted)");
                message
            },
            PreparedStoreIssue::UnrestorableLocalModification { authority, relative_path } => {
                let mut message = "target ".to_owned();
                message.append(authority.as_str());
                message.append(":");
                message.append(relative_path.as_str());
                message.append(
                    " was modified outside malm and this plan cannot restore it; run `malm apply` to restore the managed content, or update the source to adopt the local changes",
                );
                message
            },
            PreparedStoreIssue::UnrestorableMissingTarget { authority, relative_path } => {
                let mut message = "target ".to_owned();
                message.append(authority.as_str());
                message.append(":");
                message.append(relative_path.as_str());
                message.append(
                    " was deleted outside malm and this plan cannot recreate it; run `malm apply` to restore the managed content, or update the source to drop the target",
                );
                message
            },
            PreparedStoreIssue::MissingManagedAncestor { authority, relative_path, missing_prefix } => {
                let mut message = "target ".to_owned();
                message.append(authority.as_str());
                message.append(":");
                message.append(relative_path.as_str());
                message.append(" lies under missing directory ");
                message.append(authority.as_str());
                message.append(":");
                message.append(missing_prefix.as_str());
                message.append(
                    " and this plan does not create it; run `malm apply` to restore the managed directory",
                );
                message
            },
            PreparedStoreIssue::UnsafeTarget { detail } => {
                let mut message = "unsafe managed target: ".to_owned();
                message.append(detail.as_str());
                message
            },
            PreparedStoreIssue::UnknownArtifact(artifact) => {
                let mut message = "operation references artifact ".to_owned();
                message.append(artifact.as_str());
                message
            },
        }
    }
}

/// Exact Git source of a locked pack.
#[derive(Clone, Debug, PartialEq, Eq)]
pub struct GitSource<T = String> {
    /// Normalized repository URL.
    pub url: T,
    /// Commit, tagged with its object format.
    pub commit: T,
    /// Selected subdirectory.
    pub subdir: T,
}

impl View for GitSource<String> {
    type V = GitSource<Seq<char>>;

    open spec fn view(&self) -> GitSource<Seq<char>> {
        GitSource { url: self.url@, commit: self.commit@, subdir: self.subdir@ }
    }
}

impl GitSource<String> {
    /// Copies the source.
    pub fn copied(&self) -> (copy: GitSource)
        ensures
            copy@ == self@,
    {
        GitSource {
            url: self.url.clone(),
            commit: self.commit.clone(),
            subdir: self.subdir.clone(),
        }
    }
}

/// Failure from an Engine root operation.
#[derive(Debug)]
#[non_exhaustive]
#[allow(inconsistent_fields)]
pub enum EngineError<T = String, B = Vec<u8>> {
    /// The operation requires write access that was not granted at construction.
    ReadOnlyStore,
    /// An operation requires an explicitly initialized supported store.
    StoreNotReady { status: StoreStatus },
    /// Initialization cannot proceed until the explicit state parent exists.
    StateParentMissing { path: B },
    /// A directory failed ownership or mode validation.
    UnsafeDirectory { directory: StateDirectory, path: B, reason: DirectorySafetyIssue },
    /// The final root's namespace binding changed while an operation was in progress.
    RootObservationChanged { path: B },
    /// The configured state parent's namespace binding changed during an operation.
    StateParentObservationChanged { path: B },
    /// The store descriptor is malformed and is never repaired implicitly.
    MalformedStoreMetadata { path: B, reason: StoreMetadataIssue<T> },
    /// The descriptor names a store schema this Engine does not implement.
    UnsupportedStoreVersion { path: B, expected: u32, found: u32 },
    /// A v1 pack object or one of its containers is unsafe or malformed.
    PackObject { digest: T, path: B, reason: PackObjectIssue<T> },
    /// A canonical file, symlink, or tree object is unsafe or malformed.
    CanonicalObject {
        kind: CanonicalObjectKind,
        digest: T,
        path: B,
        reason: CanonicalObjectIssue<T>,
    },
    /// A local source tree is unsafe, invalid, unstable, or differs from its lock.
    PackCapture { root: B, path: B, reason: PackCaptureIssue<T> },
    /// Exact Git acquisition, object parsing, or source verification failed.
    GitAcquisition { git_source: GitSource<T>, scratch_root: B, reason: GitAcquisitionIssue<T> },
    /// A prepared record, artifact blob, or target precondition is unsafe or invalid.
    PreparedStore { path: B, reason: PreparedStoreIssue<T> },
    /// Commit-only state validation failed while preparing a deployment.
    Commit { detail: T },
    /// A filesystem operation failed.
    Io { operation: T, path: B, detail: T },
    /// A background worker thread panicked while an operation was in progress.
    WorkerPanic { operation: T },
}

impl View for EngineError<String, Vec<u8>> {
    type V = EngineError<Seq<char>, Seq<u8>>;

    open spec fn view(&self) -> EngineError<Seq<char>, Seq<u8>> {
        match *self {
            EngineError::ReadOnlyStore => EngineError::ReadOnlyStore,
            EngineError::StoreNotReady { status } => EngineError::StoreNotReady { status },
            EngineError::StateParentMissing { path } =>
                EngineError::StateParentMissing { path: path@ },
            EngineError::UnsafeDirectory { directory, path, reason } =>
                EngineError::UnsafeDirectory { directory, path: path@, reason },
            EngineError::RootObservationChanged { path } =>
                EngineError::RootObservationChanged { path: path@ },
            EngineError::StateParentObservationChanged { path } =>
                EngineError::StateParentObservationChanged { path: path@ },
            EngineError::MalformedStoreMetadata { path, reason } =>
                EngineError::MalformedStoreMetadata { path: path@, reason: reason@ },
            EngineError::UnsupportedStoreVersion { path, expected, found } =>
                EngineError::UnsupportedStoreVersion { path: path@, expected, found },
            EngineError::PackObject { digest, path, reason } =>
                EngineError::PackObject { digest: digest@, path: path@, reason: reason@ },
            EngineError::CanonicalObject { kind, digest, path, reason } =>
                EngineError::CanonicalObject {
                kind,
                digest: digest@,
                path: path@,
                reason: reason@,
            },
            EngineError::PackCapture { root, path, reason } =>
                EngineError::PackCapture { root: root@, path: path@, reason: reason@ },
            EngineError::GitAcquisition { git_source, scratch_root, reason } =>
                EngineError::GitAcquisition {
                git_source: git_source@,
                scratch_root: scratch_root@,
                reason: reason@,
            },
            EngineError::PreparedStore { path, reason } =>
                EngineError::PreparedStore { path: path@, reason: reason@ },
            EngineError::Commit { detail } => EngineError::Commit { detail: detail@ },
            EngineError::Io { operation, path, detail } =>
                EngineError::Io { operation: operation@, path: path@, detail: detail@ },
            EngineError::WorkerPanic { operation } =>
                EngineError::WorkerPanic { operation: operation@ },
        }
    }
}

/// The message of a value.
pub open spec fn engine_error_message(issue: EngineError<Seq<char>, Seq<u8>>) -> Seq<char> {
    match issue {
        EngineError::ReadOnlyStore => "store is configured read-only"@,
        EngineError::StoreNotReady { status } => "store is not ready: "@ + status.words(),
        EngineError::StateParentMissing { path } =>
            "state parent "@ + text::utf8_lossy(path)
            + " does not exist and cannot be created safely; create it (mode 700) before initializing Malm"@,
        EngineError::UnsafeDirectory { directory, path, reason } =>
            "refusing unsafe "@ + directory.words() + " "@ + text::utf8_lossy(path) + ": "@
            + directory_safety_issue_message(reason),
        EngineError::RootObservationChanged { path } =>
            "state root binding changed while inspecting "@ + text::utf8_lossy(path),
        EngineError::StateParentObservationChanged { path } =>
            "state parent binding changed while inspecting "@ + text::utf8_lossy(path),
        EngineError::MalformedStoreMetadata { path, reason } =>
            "malformed store metadata "@ + text::utf8_lossy(path) + ": "@
            + store_metadata_issue_message(reason)
            + "; the incompatible root was left unchanged; move or remove the entire root for a clean reset (no state, history, or cache import is available)"@,
        EngineError::UnsupportedStoreVersion { path, expected, found } =>
            "unsupported store schema in "@ + text::utf8_lossy(path) + ": expected exactly "@
            + text::decimal(expected as nat) + ", found "@ + text::decimal(found as nat)
            + "; the incompatible root was left unchanged; move or remove the entire root for a clean reset (no state, history, or cache import is available)"@,
        EngineError::PackObject { digest, path, reason } =>
            "invalid v1 pack object "@ + digest + " at "@ + text::utf8_lossy(path) + ": "@
            + pack_object_issue_message(reason),
        EngineError::CanonicalObject { kind, digest, path, reason } =>
            "invalid v1 canonical "@ + kind.words() + " object "@ + digest + " at "@
            + text::utf8_lossy(path) + ": "@ + canonical_object_issue_message(reason),
        EngineError::PackCapture { root, path, reason } => {
            let failure = "cannot capture local pack "@ + text::utf8_lossy(root) + " at "@
                + text::utf8_lossy(path) + ": "@ + pack_capture_issue_message(reason);
            if reason is DigestMismatch {
                failure
                    + "; the source changed since it was locked — review the change and run `malm source lock update --source "@
                    + text::utf8_lossy(root) + "`"@
            } else {
                failure
            }
        },
        EngineError::GitAcquisition { git_source, scratch_root, reason } =>
            "cannot acquire exact Git pack "@ + git_source.url + " at "@ + git_source.commit
            + " subdir "@ + git_source.subdir + " using scratch "@ + text::utf8_lossy(scratch_root)
            + ": "@ + issue::issue_message(reason),
        EngineError::PreparedStore { path, reason } =>
            "prepared deployment error at "@ + text::utf8_lossy(path) + ": "@
            + prepared_store_issue_message(reason),
        EngineError::Commit { detail } => "commit state validation failed: "@ + detail,
        EngineError::Io { operation, path, detail } =>
            operation + " "@ + text::utf8_lossy(path) + ": "@ + detail,
        EngineError::WorkerPanic { operation } => operation + " worker panicked"@,
    }
}

impl EngineError<String, Vec<u8>> {
    /// Returns the message.
    pub fn message(&self) -> (message: String)
        ensures
            message@ == engine_error_message(self@),
    {
        match self {
            EngineError::ReadOnlyStore => "store is configured read-only".to_owned(),
            EngineError::StoreNotReady { status } => {
                let mut message = "store is not ready: ".to_owned();
                message.append(status.name());
                message
            },
            EngineError::StateParentMissing { path } => {
                let mut message = "state parent ".to_owned();
                message.append(lossy_text(path.as_slice()).as_str());
                message.append(
                    " does not exist and cannot be created safely; create it (mode 700) before initializing Malm",
                );
                message
            },
            EngineError::UnsafeDirectory { directory, path, reason } => {
                let mut message = "refusing unsafe ".to_owned();
                message.append(directory.name());
                message.append(" ");
                message.append(lossy_text(path.as_slice()).as_str());
                message.append(": ");
                message.append(reason.message().as_str());
                message
            },
            EngineError::RootObservationChanged { path } => {
                let mut message = "state root binding changed while inspecting ".to_owned();
                message.append(lossy_text(path.as_slice()).as_str());
                message
            },
            EngineError::StateParentObservationChanged { path } => {
                let mut message = "state parent binding changed while inspecting ".to_owned();
                message.append(lossy_text(path.as_slice()).as_str());
                message
            },
            EngineError::MalformedStoreMetadata { path, reason } => {
                let mut message = "malformed store metadata ".to_owned();
                message.append(lossy_text(path.as_slice()).as_str());
                message.append(": ");
                message.append(reason.message().as_str());
                message.append(
                    "; the incompatible root was left unchanged; move or remove the entire root for a clean reset (no state, history, or cache import is available)",
                );
                message
            },
            EngineError::UnsupportedStoreVersion { path, expected, found } => {
                let mut message = "unsupported store schema in ".to_owned();
                message.append(lossy_text(path.as_slice()).as_str());
                message.append(": expected exactly ");
                message.append(decimal_text(*expected as u64).as_str());
                message.append(", found ");
                message.append(decimal_text(*found as u64).as_str());
                message.append(
                    "; the incompatible root was left unchanged; move or remove the entire root for a clean reset (no state, history, or cache import is available)",
                );
                message
            },
            EngineError::PackObject { digest, path, reason } => {
                let mut message = "invalid v1 pack object ".to_owned();
                message.append(digest.as_str());
                message.append(" at ");
                message.append(lossy_text(path.as_slice()).as_str());
                message.append(": ");
                message.append(reason.message().as_str());
                message
            },
            EngineError::CanonicalObject { kind, digest, path, reason } => {
                let mut message = "invalid v1 canonical ".to_owned();
                message.append(kind.name());
                message.append(" object ");
                message.append(digest.as_str());
                message.append(" at ");
                message.append(lossy_text(path.as_slice()).as_str());
                message.append(": ");
                message.append(reason.message().as_str());
                message
            },
            EngineError::PackCapture { root, path, reason } => {
                let shown = lossy_text(root.as_slice());
                let mut message = "cannot capture local pack ".to_owned();
                message.append(shown.as_str());
                message.append(" at ");
                message.append(lossy_text(path.as_slice()).as_str());
                message.append(": ");
                message.append(reason.message().as_str());
                match reason {
                    PackCaptureIssue::DigestMismatch { .. } => {
                        message.append(
                            "; the source changed since it was locked — review the change and run `malm source lock update --source ",
                        );
                        message.append(shown.as_str());
                        message.append("`");
                    },
                    _ => {},
                }
                message
            },
            EngineError::GitAcquisition { git_source, scratch_root, reason } => {
                let mut message = "cannot acquire exact Git pack ".to_owned();
                message.append(git_source.url.as_str());
                message.append(" at ");
                message.append(git_source.commit.as_str());
                message.append(" subdir ");
                message.append(git_source.subdir.as_str());
                message.append(" using scratch ");
                message.append(lossy_text(scratch_root.as_slice()).as_str());
                message.append(": ");
                message.append(reason.message().as_str());
                message
            },
            EngineError::PreparedStore { path, reason } => {
                let mut message = "prepared deployment error at ".to_owned();
                message.append(lossy_text(path.as_slice()).as_str());
                message.append(": ");
                message.append(reason.message().as_str());
                message
            },
            EngineError::Commit { detail } => {
                let mut message = "commit state validation failed: ".to_owned();
                message.append(detail.as_str());
                message
            },
            EngineError::Io { operation, path, detail } => {
                let mut message = operation.clone();
                message.append(" ");
                message.append(lossy_text(path.as_slice()).as_str());
                message.append(": ");
                message.append(detail.as_str());
                message
            },
            EngineError::WorkerPanic { operation } => {
                let mut message = operation.clone();
                message.append(" worker panicked");
                message
            },
        }
    }
}

/// Failure to decode a complete archive or publish its verified object set.
#[derive(Debug)]
#[non_exhaustive]
#[allow(inconsistent_fields)]
pub enum ArchivePublicationError<T = String, B = Vec<u8>> {
    /// Exact payload or archive semantic verification failed before store mutation.
    Decode { detail: T },
    /// Publication into the pinned private canonical-object store failed.
    Store { source: EngineError<T, B> },
    /// Trusted decoding produced a tree other than the reviewed declaration.
    UnexpectedRoot { expected: T, actual: T },
}

impl View for ArchivePublicationError<String, Vec<u8>> {
    type V = ArchivePublicationError<Seq<char>, Seq<u8>>;

    open spec fn view(&self) -> ArchivePublicationError<Seq<char>, Seq<u8>> {
        match *self {
            ArchivePublicationError::Decode { detail } =>
                ArchivePublicationError::Decode { detail: detail@ },
            ArchivePublicationError::Store { source } =>
                ArchivePublicationError::Store { source: source@ },
            ArchivePublicationError::UnexpectedRoot { expected, actual } =>
                ArchivePublicationError::UnexpectedRoot { expected: expected@, actual: actual@ },
        }
    }
}

/// The message of a value.
pub open spec fn archive_publication_error_message(issue: ArchivePublicationError<Seq<char>, Seq<u8>>) -> Seq<char> {
    match issue {
        ArchivePublicationError::Decode { detail } => "decode archive/v1 payload: "@ + detail,
        ArchivePublicationError::Store { source } =>
            "publish archive/v1 objects: "@ + engine_error_message(source),
        ArchivePublicationError::UnexpectedRoot { expected, actual } =>
            "decoded archive root is "@ + actual + ", reviewed config requires "@ + expected,
    }
}

impl ArchivePublicationError<String, Vec<u8>> {
    /// Returns the message.
    pub fn message(&self) -> (message: String)
        ensures
            message@ == archive_publication_error_message(self@),
    {
        match self {
            ArchivePublicationError::Decode { detail } => {
                let mut message = "decode archive/v1 payload: ".to_owned();
                message.append(detail.as_str());
                message
            },
            ArchivePublicationError::Store { source } => {
                let mut message = "publish archive/v1 objects: ".to_owned();
                message.append(source.message().as_str());
                message
            },
            ArchivePublicationError::UnexpectedRoot { expected, actual } => {
                let mut message = "decoded archive root is ".to_owned();
                message.append(actual.as_str());
                message.append(", reviewed config requires ");
                message.append(expected.as_str());
                message
            },
        }
    }
}

/// Failure while acquiring and assembling a complete locked pack graph.
#[derive(Debug)]
#[non_exhaustive]
#[allow(inconsistent_fields)]
pub enum GraphAcquisitionError<T = String, B = Vec<u8>> {
    /// A local lock node was not present in the caller's explicit grant set.
    LocalSourceNotGranted { node_id: T, locator: T },
    /// A Git URL in the lock was not present in the explicit grant set.
    GitSourceNotGranted { node_id: T, url: T },
    /// A unique missing remote pack has no caller-owned scratch directory.
    MissingGitScratch { digest: T },
    /// This local-only operation encountered a Git lock node.
    UnsupportedGitSource { node_id: T, git_source: GitSource<T> },
    /// Stable capture or CAS publication failed for one lock node.
    Source { node_id: T, source: EngineError<T, B> },
    /// All source objects were published, but final graph verification failed.
    Assembly { detail: T },
}

impl View for GraphAcquisitionError<String, Vec<u8>> {
    type V = GraphAcquisitionError<Seq<char>, Seq<u8>>;

    open spec fn view(&self) -> GraphAcquisitionError<Seq<char>, Seq<u8>> {
        match *self {
            GraphAcquisitionError::LocalSourceNotGranted { node_id, locator } =>
                GraphAcquisitionError::LocalSourceNotGranted {
                node_id: node_id@,
                locator: locator@,
            },
            GraphAcquisitionError::GitSourceNotGranted { node_id, url } =>
                GraphAcquisitionError::GitSourceNotGranted { node_id: node_id@, url: url@ },
            GraphAcquisitionError::MissingGitScratch { digest } =>
                GraphAcquisitionError::MissingGitScratch { digest: digest@ },
            GraphAcquisitionError::UnsupportedGitSource { node_id, git_source } =>
                GraphAcquisitionError::UnsupportedGitSource {
                node_id: node_id@,
                git_source: git_source@,
            },
            GraphAcquisitionError::Source { node_id, source } =>
                GraphAcquisitionError::Source { node_id: node_id@, source: source@ },
            GraphAcquisitionError::Assembly { detail } =>
                GraphAcquisitionError::Assembly { detail: detail@ },
        }
    }
}

/// The message of a value.
pub open spec fn graph_acquisition_error_message(issue: GraphAcquisitionError<Seq<char>, Seq<u8>>) -> Seq<char> {
    match issue {
        GraphAcquisitionError::LocalSourceNotGranted { node_id, locator } =>
            "local source "@ + locator + " for locked node "@ + node_id
            + " was not explicitly granted"@,
        GraphAcquisitionError::GitSourceNotGranted { node_id, url } =>
            "Git source "@ + url + " for locked node "@ + node_id
            + " was not explicitly granted"@,
        GraphAcquisitionError::MissingGitScratch { digest } =>
            "missing caller-owned Git scratch directory for uncached pack "@ + digest,
        GraphAcquisitionError::UnsupportedGitSource { node_id, git_source } =>
            "locked node "@ + node_id + " requires unsupported Git acquisition from "@
                + git_source.url,
        GraphAcquisitionError::Source { node_id, source } =>
            "acquire locked node "@ + node_id + ": "@ + engine_error_message(source),
        GraphAcquisitionError::Assembly { detail } => "assemble acquired graph: "@ + detail,
    }
}

impl GraphAcquisitionError<String, Vec<u8>> {
    /// Returns the message.
    pub fn message(&self) -> (message: String)
        ensures
            message@ == graph_acquisition_error_message(self@),
    {
        match self {
            GraphAcquisitionError::LocalSourceNotGranted { node_id, locator } => {
                let mut message = "local source ".to_owned();
                message.append(locator.as_str());
                message.append(" for locked node ");
                message.append(node_id.as_str());
                message.append(" was not explicitly granted");
                message
            },
            GraphAcquisitionError::GitSourceNotGranted { node_id, url } => {
                let mut message = "Git source ".to_owned();
                message.append(url.as_str());
                message.append(" for locked node ");
                message.append(node_id.as_str());
                message.append(" was not explicitly granted");
                message
            },
            GraphAcquisitionError::MissingGitScratch { digest } => {
                let mut message = "missing caller-owned Git scratch directory for uncached pack ".to_owned();
                message.append(digest.as_str());
                message
            },
            GraphAcquisitionError::UnsupportedGitSource { node_id, git_source } => {
                let mut message = "locked node ".to_owned();
                message.append(node_id.as_str());
                message.append(" requires unsupported Git acquisition from ");
                message.append(git_source.url.as_str());
                message
            },
            GraphAcquisitionError::Source { node_id, source } => {
                let mut message = "acquire locked node ".to_owned();
                message.append(node_id.as_str());
                message.append(": ");
                message.append(source.message().as_str());
                message
            },
            GraphAcquisitionError::Assembly { detail } => {
                let mut message = "assemble acquired graph: ".to_owned();
                message.append(detail.as_str());
                message
            },
        }
    }
}

/// Typed root `malm.lock` inspection or publication failure.
#[derive(Debug)]
#[non_exhaustive]
#[allow(inconsistent_fields)]
pub enum LockFileIssue<T = String> {
    /// Another cooperative lock operation currently owns the root directory.
    Busy,
    /// Creation requires the destination name to be absent.
    AlreadyExists,
    /// Update requires an existing lock.
    Missing,
    /// The existing lock is not a regular file.
    NotRegular,
    /// The existing lock is not owned by the effective user.
    WrongOwner { expected_uid: u32, actual_uid: u32 },
    /// The lock does not have exact generated-file permissions.
    UnexpectedMode { expected: u32, actual: u32 },
    /// The existing lock has another hard link.
    UnexpectedLinks { expected: u64, actual: u64 },
    /// The existing or generated bytes exceed the lock/v1 limit.
    TooLarge { limit: usize, actual: usize },
    /// Existing bytes are not a valid lock/v1 document.
    Invalid { detail: T },
    /// The lock binding or metadata changed during the operation.
    ObservationChanged,
    /// A reserved staging entry is not a complete canonical generated lock.
    UnsafeStaging,
    /// Descriptor-relative lock I/O failed.
    Io { operation: T, detail: T },
}

impl View for LockFileIssue<String> {
    type V = LockFileIssue<Seq<char>>;

    open spec fn view(&self) -> LockFileIssue<Seq<char>> {
        match *self {
            LockFileIssue::Busy => LockFileIssue::Busy,
            LockFileIssue::AlreadyExists => LockFileIssue::AlreadyExists,
            LockFileIssue::Missing => LockFileIssue::Missing,
            LockFileIssue::NotRegular => LockFileIssue::NotRegular,
            LockFileIssue::WrongOwner { expected_uid, actual_uid } =>
                LockFileIssue::WrongOwner { expected_uid, actual_uid },
            LockFileIssue::UnexpectedMode { expected, actual } =>
                LockFileIssue::UnexpectedMode { expected, actual },
            LockFileIssue::UnexpectedLinks { expected, actual } =>
                LockFileIssue::UnexpectedLinks { expected, actual },
            LockFileIssue::TooLarge { limit, actual } => LockFileIssue::TooLarge { limit, actual },
            LockFileIssue::Invalid { detail } => LockFileIssue::Invalid { detail: detail@ },
            LockFileIssue::ObservationChanged => LockFileIssue::ObservationChanged,
            LockFileIssue::UnsafeStaging => LockFileIssue::UnsafeStaging,
            LockFileIssue::Io { operation, detail } =>
                LockFileIssue::Io { operation: operation@, detail: detail@ },
        }
    }
}

/// The message of a value.
pub open spec fn lock_file_issue_message(issue: LockFileIssue<Seq<char>>) -> Seq<char> {
    match issue {
        LockFileIssue::Busy => "another lock operation is in progress"@,
        LockFileIssue::AlreadyExists => "lock already exists"@,
        LockFileIssue::Missing => "lock does not exist"@,
        LockFileIssue::NotRegular => "lock is not a regular file"@,
        LockFileIssue::WrongOwner { expected_uid, actual_uid } =>
            "lock owner uid must be "@ + text::decimal(expected_uid as nat) + ", found "@
            + text::decimal(actual_uid as nat),
        LockFileIssue::UnexpectedMode { expected, actual } =>
            "lock mode must be "@ + text::octal4(expected as nat) + ", found "@
            + text::octal4(actual as nat),
        LockFileIssue::UnexpectedLinks { expected, actual } =>
            "lock link count must be "@ + text::decimal(expected as nat) + ", found "@
            + text::decimal(actual as nat),
        LockFileIssue::TooLarge { limit, actual } =>
            "lock is "@ + text::decimal(actual as nat) + " bytes; limit is "@
            + text::decimal(limit as nat),
        LockFileIssue::Invalid { detail } => detail,
        LockFileIssue::ObservationChanged => "lock changed during the operation"@,
        LockFileIssue::UnsafeStaging => "lock staging entry is not a canonical generated lock"@,
        LockFileIssue::Io { operation, detail } => operation + ": "@ + detail,
    }
}

impl LockFileIssue<String> {
    /// Returns the message.
    pub fn message(&self) -> (message: String)
        ensures
            message@ == lock_file_issue_message(self@),
    {
        match self {
            LockFileIssue::Busy => "another lock operation is in progress".to_owned(),
            LockFileIssue::AlreadyExists => "lock already exists".to_owned(),
            LockFileIssue::Missing => "lock does not exist".to_owned(),
            LockFileIssue::NotRegular => "lock is not a regular file".to_owned(),
            LockFileIssue::WrongOwner { expected_uid, actual_uid } => {
                let mut message = "lock owner uid must be ".to_owned();
                message.append(decimal_text(*expected_uid as u64).as_str());
                message.append(", found ");
                message.append(decimal_text(*actual_uid as u64).as_str());
                message
            },
            LockFileIssue::UnexpectedMode { expected, actual } => {
                let mut message = "lock mode must be ".to_owned();
                message.append(octal4_text(*expected).as_str());
                message.append(", found ");
                message.append(octal4_text(*actual).as_str());
                message
            },
            LockFileIssue::UnexpectedLinks { expected, actual } => {
                let mut message = "lock link count must be ".to_owned();
                message.append(decimal_text(*expected).as_str());
                message.append(", found ");
                message.append(decimal_text(*actual).as_str());
                message
            },
            LockFileIssue::TooLarge { limit, actual } => {
                let mut message = "lock is ".to_owned();
                message.append(decimal_text(*actual as u64).as_str());
                message.append(" bytes; limit is ");
                message.append(decimal_text(*limit as u64).as_str());
                message
            },
            LockFileIssue::Invalid { detail } => detail.clone(),
            LockFileIssue::ObservationChanged => "lock changed during the operation".to_owned(),
            LockFileIssue::UnsafeStaging =>
                "lock staging entry is not a canonical generated lock".to_owned(),
            LockFileIssue::Io { operation, detail } => {
                let mut message = operation.clone();
                message.append(": ");
                message.append(detail.as_str());
                message
            },
        }
    }
}

/// What keeps packs from making up a lock; `T` is the type of text.
#[derive(Clone, Debug, PartialEq, Eq)]
#[allow(inconsistent_fields)]
pub enum LockProblem<T = String> {
    /// The packs declare too many dependencies.
    TooManyEdges { limit: usize, actual: usize },
    /// There are too many packs.
    TooManyNodes { limit: usize, actual: usize },
    /// A rule of locks does not hold.
    Invalid { detail: T },
}

impl View for LockProblem<String> {
    type V = LockProblem<Seq<char>>;

    open spec fn view(&self) -> LockProblem<Seq<char>> {
        match *self {
            LockProblem::TooManyEdges { limit, actual } => LockProblem::TooManyEdges {
                limit,
                actual,
            },
            LockProblem::TooManyNodes { limit, actual } => LockProblem::TooManyNodes {
                limit,
                actual,
            },
            LockProblem::Invalid { detail } => LockProblem::Invalid { detail: detail@ },
        }
    }
}

/// Failure while explicitly creating or updating a complete lock/v1 graph.
#[derive(Debug)]
#[non_exhaustive]
#[allow(inconsistent_fields)]
pub enum LockOperationError<T = String, B = Vec<u8>> {
    /// Components were discovered without an explicit profile resolution input.
    MissingFormatComponentExecutionProfile,
    /// A discovered local selector was not explicitly granted.
    LocalSourceNotGranted { locator: T },
    /// A discovered Git URL was not explicitly granted.
    GitSourceNotGranted { url: T },
    /// A Git source requiring acquisition has no caller-owned scratch root.
    MissingGitScratch { git_source: GitSource<T> },
    /// A dependency declaration names another package than its source contains.
    PackageMismatch { source_identity: LockSource<T>, expected: T, actual: T },
    /// A local source changed while the complete graph was being resolved.
    SourceChanged { source_identity: LockSource<T>, expected: T, actual: T },
    /// Source capture, Git acquisition, or CAS access failed.
    Source { source_identity: LockSource<T>, source: EngineError<T, B> },
    /// A prior exact Git source points at semantically invalid cached bytes.
    CachedPackInvalid { source_identity: LockSource<T>, digest: T, detail: T },
    /// Candidate graph construction failed semantic lock validation.
    Validation { problem: LockProblem<T> },
    /// Generated canonical JSON exceeds the lock/v1 byte limit.
    EncodedLockTooLarge { limit: usize, actual: usize },
    /// Complete discovery exceeded a fixed aggregate resource ceiling.
    ResourceLimitExceeded { resource: T, limit: u64, actual: u64 },
    /// Final offline assembly disagreed with discovered graph data.
    Assembly { detail: T },
    /// Root lock-file inspection or publication failed.
    LockFile { path: B, reason: LockFileIssue<T> },
}

impl View for LockOperationError<String, Vec<u8>> {
    type V = LockOperationError<Seq<char>, Seq<u8>>;

    open spec fn view(&self) -> LockOperationError<Seq<char>, Seq<u8>> {
        match *self {
            LockOperationError::MissingFormatComponentExecutionProfile =>
                LockOperationError::MissingFormatComponentExecutionProfile,
            LockOperationError::LocalSourceNotGranted { locator } =>
                LockOperationError::LocalSourceNotGranted { locator: locator@ },
            LockOperationError::GitSourceNotGranted { url } =>
                LockOperationError::GitSourceNotGranted { url: url@ },
            LockOperationError::MissingGitScratch { git_source } =>
                LockOperationError::MissingGitScratch { git_source: git_source@ },
            LockOperationError::PackageMismatch { source_identity, expected, actual } =>
                LockOperationError::PackageMismatch {
                source_identity: source_identity@,
                expected: expected@,
                actual: actual@,
            },
            LockOperationError::SourceChanged { source_identity, expected, actual } =>
                LockOperationError::SourceChanged {
                source_identity: source_identity@,
                expected: expected@,
                actual: actual@,
            },
            LockOperationError::Source { source_identity, source } => LockOperationError::Source {
                source_identity: source_identity@,
                source: source@,
            },
            LockOperationError::CachedPackInvalid { source_identity, digest, detail } =>
                LockOperationError::CachedPackInvalid {
                source_identity: source_identity@,
                digest: digest@,
                detail: detail@,
            },
            LockOperationError::Validation { problem } =>
                LockOperationError::Validation { problem: problem@ },
            LockOperationError::EncodedLockTooLarge { limit, actual } =>
                LockOperationError::EncodedLockTooLarge { limit, actual },
            LockOperationError::ResourceLimitExceeded { resource, limit, actual } =>
                LockOperationError::ResourceLimitExceeded { resource: resource@, limit, actual },
            LockOperationError::Assembly { detail } =>
                LockOperationError::Assembly { detail: detail@ },
            LockOperationError::LockFile { path, reason } =>
                LockOperationError::LockFile { path: path@, reason: reason@ },
        }
    }
}

/// The message of a value; `shown` is how its source is written out, or what is wrong with its
/// packs.
pub open spec fn lock_operation_error_message(
    issue: LockOperationError<Seq<char>, Seq<u8>>,
    shown: Seq<char>,
) -> Seq<char> {
    match issue {
        LockOperationError::MissingFormatComponentExecutionProfile =>
            "lock resolution found format-component/v1 declarations but no execution profile was supplied"@,
        LockOperationError::LocalSourceNotGranted { locator } =>
            "local source "@ + locator + " was not explicitly granted"@,
        LockOperationError::GitSourceNotGranted { url } =>
            "Git source "@ + url + " was not explicitly granted"@,
        LockOperationError::MissingGitScratch { git_source } =>
            "missing caller-owned scratch for Git source "@ + git_source.url + " at "@
            + git_source.commit,
        LockOperationError::PackageMismatch { source_identity: _, expected, actual } =>
            "source "@ + shown + " declares package "@ + actual
            + ", dependency requires "@ + expected,
        LockOperationError::SourceChanged { source_identity: _, expected, actual } =>
            "source "@ + shown + " changed during lock resolution: expected "@
            + expected + ", found "@ + actual,
        LockOperationError::Source { source_identity: _, source } =>
            "resolve source "@ + shown + ": "@ + engine_error_message(source),
        LockOperationError::CachedPackInvalid { source_identity: _, digest, detail } =>
            "cached pack "@ + digest + " for source "@ + shown + " is invalid: "@
            + detail,
        LockOperationError::Validation { problem } => "build lock graph: "@ + match problem {
            LockProblem::Invalid { detail } => detail,
            _ => shown,
        },
        LockOperationError::EncodedLockTooLarge { limit, actual } =>
            "generated lock is "@ + text::decimal(actual as nat) + " bytes; limit is "@
            + text::decimal(limit as nat),
        LockOperationError::ResourceLimitExceeded { resource, limit, actual } =>
            "lock resolution "@ + resource + " is "@ + text::decimal(actual as nat)
            + "; limit is "@ + text::decimal(limit as nat),
        LockOperationError::Assembly { detail } => "verify generated lock: "@ + detail,
        LockOperationError::LockFile { path, reason } =>
            "lock file "@ + text::utf8_lossy(path) + ": "@ + lock_file_issue_message(reason),
    }
}

impl LockOperationError<String, Vec<u8>> {
    /// Returns the message. Where it speaks of a source, or of too many packs or dependencies,
    /// `shown` is how that is written out.
    pub fn message(&self, shown: &str) -> (message: String)
        ensures
            message@ == lock_operation_error_message(self@, shown@),
    {
        match self {
            LockOperationError::MissingFormatComponentExecutionProfile =>
                "lock resolution found format-component/v1 declarations but no execution profile was supplied".to_owned(),
            LockOperationError::LocalSourceNotGranted { locator } => {
                let mut message = "local source ".to_owned();
                message.append(locator.as_str());
                message.append(" was not explicitly granted");
                message
            },
            LockOperationError::GitSourceNotGranted { url } => {
                let mut message = "Git source ".to_owned();
                message.append(url.as_str());
                message.append(" was not explicitly granted");
                message
            },
            LockOperationError::MissingGitScratch { git_source } => {
                let mut message = "missing caller-owned scratch for Git source ".to_owned();
                message.append(git_source.url.as_str());
                message.append(" at ");
                message.append(git_source.commit.as_str());
                message
            },
            LockOperationError::PackageMismatch { source_identity: _, expected, actual } => {
                let mut message = "source ".to_owned();
                message.append(shown);
                message.append(" declares package ");
                message.append(actual.as_str());
                message.append(", dependency requires ");
                message.append(expected.as_str());
                message
            },
            LockOperationError::SourceChanged { source_identity: _, expected, actual } => {
                let mut message = "source ".to_owned();
                message.append(shown);
                message.append(" changed during lock resolution: expected ");
                message.append(expected.as_str());
                message.append(", found ");
                message.append(actual.as_str());
                message
            },
            LockOperationError::Source { source_identity: _, source } => {
                let mut message = "resolve source ".to_owned();
                message.append(shown);
                message.append(": ");
                message.append(source.message().as_str());
                message
            },
            LockOperationError::CachedPackInvalid { source_identity: _, digest, detail } => {
                let mut message = "cached pack ".to_owned();
                message.append(digest.as_str());
                message.append(" for source ");
                message.append(shown);
                message.append(" is invalid: ");
                message.append(detail.as_str());
                message
            },
            LockOperationError::Validation { problem } => {
                let mut message = "build lock graph: ".to_owned();
                match problem {
                    LockProblem::Invalid { detail } => message.append(detail.as_str()),
                    _ => message.append(shown),
                }
                message
            },
            LockOperationError::EncodedLockTooLarge { limit, actual } => {
                let mut message = "generated lock is ".to_owned();
                message.append(decimal_text(*actual as u64).as_str());
                message.append(" bytes; limit is ");
                message.append(decimal_text(*limit as u64).as_str());
                message
            },
            LockOperationError::ResourceLimitExceeded { resource, limit, actual } => {
                let mut message = "lock resolution ".to_owned();
                message.append(resource.as_str());
                message.append(" is ");
                message.append(decimal_text(*actual).as_str());
                message.append("; limit is ");
                message.append(decimal_text(*limit).as_str());
                message
            },
            LockOperationError::Assembly { detail } => {
                let mut message = "verify generated lock: ".to_owned();
                message.append(detail.as_str());
                message
            },
            LockOperationError::LockFile { path, reason } => {
                let mut message = "lock file ".to_owned();
                message.append(lossy_text(path.as_slice()).as_str());
                message.append(": ");
                message.append(reason.message().as_str());
                message
            },
        }
    }
}

/// Invalid explicit Engine root configuration.
#[derive(Clone, Debug, PartialEq, Eq)]
#[non_exhaustive]
#[allow(inconsistent_fields)]
pub enum EngineConfigError<T = String, B = Vec<u8>> {
    /// The explicit final-root path violates the injected-root contract.
    InvalidStateRoot(T),
    /// A managed target authority was relative or the filesystem root.
    InvalidTargetRoot { authority: T, path: B },
    /// A managed target root is equal to or lexically inside protected state.
    TargetOverlapsState { authority: T, path: B },
    /// One target authority was configured more than once.
    DuplicateTargetAuthority(T),
}

impl View for EngineConfigError<String, Vec<u8>> {
    type V = EngineConfigError<Seq<char>, Seq<u8>>;

    open spec fn view(&self) -> EngineConfigError<Seq<char>, Seq<u8>> {
        match *self {
            EngineConfigError::InvalidStateRoot(detail) =>
                EngineConfigError::InvalidStateRoot(detail@),
            EngineConfigError::InvalidTargetRoot { authority, path } =>
                EngineConfigError::InvalidTargetRoot { authority: authority@, path: path@ },
            EngineConfigError::TargetOverlapsState { authority, path } =>
                EngineConfigError::TargetOverlapsState { authority: authority@, path: path@ },
            EngineConfigError::DuplicateTargetAuthority(authority) =>
                EngineConfigError::DuplicateTargetAuthority(authority@),
        }
    }
}

/// The message of a value.
pub open spec fn engine_config_error_message(issue: EngineConfigError<Seq<char>, Seq<u8>>) -> Seq<char> {
    match issue {
        EngineConfigError::InvalidStateRoot(detail) => "invalid state root: "@ + detail,
        EngineConfigError::InvalidTargetRoot { authority, path } =>
            "target authority "@ + authority + " must name an absolute non-root path, got "@
            + text::utf8_lossy(path),
        EngineConfigError::TargetOverlapsState { authority, path } =>
            "target authority "@ + authority + " at "@ + text::utf8_lossy(path)
            + " is inside protected state"@,
        EngineConfigError::DuplicateTargetAuthority(authority) =>
            "target authority "@ + authority + " is configured twice"@,
    }
}

impl EngineConfigError<String, Vec<u8>> {
    /// Returns the message.
    pub fn message(&self) -> (message: String)
        ensures
            message@ == engine_config_error_message(self@),
    {
        match self {
            EngineConfigError::InvalidStateRoot(detail) => {
                let mut message = "invalid state root: ".to_owned();
                message.append(detail.as_str());
                message
            },
            EngineConfigError::InvalidTargetRoot { authority, path } => {
                let mut message = "target authority ".to_owned();
                message.append(authority.as_str());
                message.append(" must name an absolute non-root path, got ");
                message.append(lossy_text(path.as_slice()).as_str());
                message
            },
            EngineConfigError::TargetOverlapsState { authority, path } => {
                let mut message = "target authority ".to_owned();
                message.append(authority.as_str());
                message.append(" at ");
                message.append(lossy_text(path.as_slice()).as_str());
                message.append(" is inside protected state");
                message
            },
            EngineConfigError::DuplicateTargetAuthority(authority) => {
                let mut message = "target authority ".to_owned();
                message.append(authority.as_str());
                message.append(" is configured twice");
                message
            },
        }
    }
}

} // verus!
