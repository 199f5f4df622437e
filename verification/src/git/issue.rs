//! Failures of Git acquisition and their texts.

use vstd::prelude::*;

use crate::git::object::GitObjectKind;
use crate::text;
use crate::text::{concat2, concat3, concat4, concat5, decimal_text, octal4_text};
use crate::time;
use crate::time::Duration;

verus! {

/// Git subprocess stage associated with a bounded process failure.
#[derive(Clone, Copy, Debug, PartialEq, Eq, Structural)]
pub enum GitCommandStage {
    /// Resolve one explicitly granted moving root selector.
    ResolveSelector,
    /// Initialize a fresh bare scratch repository.
    Initialize,
    /// Fetch the one exact locked object ID.
    Fetch,
    /// Read and validate raw Git objects.
    ReadObjects,
}

impl GitCommandStage {
    /// The stage in words.
    pub open spec fn words(self) -> Seq<char> {
        match self {
            GitCommandStage::ResolveSelector => "resolve moving selector"@,
            GitCommandStage::Initialize => "initialize scratch repository"@,
            GitCommandStage::Fetch => "fetch exact object"@,
            GitCommandStage::ReadObjects => "read Git objects"@,
        }
    }

    /// Returns the stage in words.
    pub fn message(self) -> (text: &'static str)
        ensures
            text@ == self.words(),
    {
        match self {
            GitCommandStage::ResolveSelector => "resolve moving selector",
            GitCommandStage::Initialize => "initialize scratch repository",
            GitCommandStage::Fetch => "fetch exact object",
            GitCommandStage::ReadObjects => "read Git objects",
        }
    }
}

/// Bounded subprocess stream.
#[derive(Clone, Copy, Debug, PartialEq, Eq, Structural)]
pub enum GitOutputStream {
    /// Standard output.
    Stdout,
    /// Standard error.
    Stderr,
}

impl GitOutputStream {
    /// The usual name of the stream.
    pub open spec fn words(self) -> Seq<char> {
        match self {
            GitOutputStream::Stdout => "stdout"@,
            GitOutputStream::Stderr => "stderr"@,
        }
    }

    /// Returns the usual name of the stream.
    pub fn message(self) -> (text: &'static str)
        ensures
            text@ == self.words(),
    {
        match self {
            GitOutputStream::Stdout => "stdout",
            GitOutputStream::Stderr => "stderr",
        }
    }
}

/// Typed exact-Git acquisition or raw-object validation failure.
///
/// `T` is the type of its texts: `String` in running code, a character sequence in
/// contracts.
#[derive(Debug)]
#[non_exhaustive]
#[allow(inconsistent_fields)]
pub enum GitAcquisitionIssue<T = String> {
    /// The selected custom process adapter does not grant moving-reference resolution.
    SelectorResolutionUnavailable,
    /// `ls-remote` output did not identify exactly one supported full commit ID.
    InvalidSelectorOutput { detail: T },
    /// Scratch must be an explicit absolute path.
    ScratchRootMustBeAbsolute,
    /// Scratch does not exist.
    ScratchRootMissing,
    /// Scratch or an intermediate component is not a directory.
    ScratchRootNotDirectory,
    /// Scratch includes a symbolic path component.
    ScratchRootSymbolicLink,
    /// Scratch is not owned by the effective user.
    ScratchRootWrongOwner { expected_uid: u32, actual_uid: u32 },
    /// Scratch does not have exact private permissions.
    ScratchRootUnexpectedMode { expected: u32, actual: u32 },
    /// Caller-owned scratch must be empty on a cache miss.
    ScratchRootNotEmpty,
    /// Scratch overlaps a protected Engine state authority.
    ProtectedStateOverlap,
    /// Scratch pathname binding changed during acquisition.
    ScratchRootObservationChanged,
    /// Git process setup, I/O, supervision, or pipe access failed.
    ProcessIo { stage: GitCommandStage, operation: T, detail: T },
    /// A subprocess exceeded its explicit wall-clock budget.
    Timeout { stage: GitCommandStage, limit: Duration },
    /// A control stream exceeded its fixed capture budget.
    OutputLimitExceeded { stage: GitCommandStage, stream: GitOutputStream, limit: u64 },
    /// Fetch-created regular files exceeded the explicit transfer budget.
    TransferLimitExceeded { stage: GitCommandStage, limit: u64 },
    /// Git exited unsuccessfully; without a code it was terminated by a signal.
    ProcessFailed { stage: GitCommandStage, code: Option<i32>, detail: T },
    /// A requested object is absent from the freshly fetched repository.
    MissingObject { oid: T },
    /// The exact object or one of its descendants has another Git type.
    UnexpectedObjectType { oid: T, expected: GitObjectKind, actual: T },
    /// One raw object exceeds its bounded parser budget.
    ObjectTooLarge { oid: T, kind: GitObjectKind, limit: u64, actual: u64 },
    /// Commit, tree, or batch framing is malformed.
    MalformedObject { kind: GitObjectKind, detail: T },
    /// The selected pack subdirectory is absent.
    MissingSubdir { subdir: T },
    /// A selected subdirectory component is not a tree.
    SubdirNotTree { path: T, mode: T },
    /// One non-reserved committed path name is not UTF-8; the parent is absent at the
    /// selected tree root.
    NonUtf8Name { parent: Option<T> },
    /// One selected-tree path is invalid under pack/v1.
    InvalidPath { detail: T },
    /// A selected committed entry is a symbolic link.
    SymbolicLink { path: T },
    /// A selected committed entry is a Git submodule link.
    Gitlink { path: T },
    /// A selected committed entry uses another unsupported mode.
    UnsupportedMode { path: T, mode: T },
    /// Recursive tree work exceeded its fixed entry budget.
    TraversalLimitExceeded { limit: usize },
    /// The selected tree contains too many regular files.
    TooManyFiles { limit: usize, actual: usize },
    /// Combined raw tree objects exceed their parser budget.
    RawTreesTooLarge { limit: u64, actual: u64 },
    /// Selected logical blob bytes exceed the pack limit.
    TreeTooLarge { limit: u64, actual: u64 },
    /// Canonical selected-tree bytes differ from the lock.
    DigestMismatch { expected: T, actual: T },
    /// Selected bytes do not form a semantically valid pack.
    InvalidPack { detail: T },
}

impl View for GitAcquisitionIssue<String> {
    type V = GitAcquisitionIssue<Seq<char>>;

    open spec fn view(&self) -> GitAcquisitionIssue<Seq<char>> {
        match *self {
            GitAcquisitionIssue::SelectorResolutionUnavailable =>
                GitAcquisitionIssue::SelectorResolutionUnavailable,
            GitAcquisitionIssue::InvalidSelectorOutput { detail } =>
                GitAcquisitionIssue::InvalidSelectorOutput { detail: detail@ },
            GitAcquisitionIssue::ScratchRootMustBeAbsolute =>
                GitAcquisitionIssue::ScratchRootMustBeAbsolute,
            GitAcquisitionIssue::ScratchRootMissing => GitAcquisitionIssue::ScratchRootMissing,
            GitAcquisitionIssue::ScratchRootNotDirectory =>
                GitAcquisitionIssue::ScratchRootNotDirectory,
            GitAcquisitionIssue::ScratchRootSymbolicLink =>
                GitAcquisitionIssue::ScratchRootSymbolicLink,
            GitAcquisitionIssue::ScratchRootWrongOwner { expected_uid, actual_uid } =>
                GitAcquisitionIssue::ScratchRootWrongOwner { expected_uid, actual_uid },
            GitAcquisitionIssue::ScratchRootUnexpectedMode { expected, actual } =>
                GitAcquisitionIssue::ScratchRootUnexpectedMode { expected, actual },
            GitAcquisitionIssue::ScratchRootNotEmpty => GitAcquisitionIssue::ScratchRootNotEmpty,
            GitAcquisitionIssue::ProtectedStateOverlap =>
                GitAcquisitionIssue::ProtectedStateOverlap,
            GitAcquisitionIssue::ScratchRootObservationChanged =>
                GitAcquisitionIssue::ScratchRootObservationChanged,
            GitAcquisitionIssue::ProcessIo { stage, operation, detail } =>
                GitAcquisitionIssue::ProcessIo {
                stage,
                operation: operation@,
                detail: detail@,
            },
            GitAcquisitionIssue::Timeout { stage, limit } => GitAcquisitionIssue::Timeout {
                stage,
                limit,
            },
            GitAcquisitionIssue::OutputLimitExceeded { stage, stream, limit } =>
                GitAcquisitionIssue::OutputLimitExceeded { stage, stream, limit },
            GitAcquisitionIssue::TransferLimitExceeded { stage, limit } =>
                GitAcquisitionIssue::TransferLimitExceeded { stage, limit },
            GitAcquisitionIssue::ProcessFailed { stage, code, detail } =>
                GitAcquisitionIssue::ProcessFailed { stage, code, detail: detail@ },
            GitAcquisitionIssue::MissingObject { oid } => GitAcquisitionIssue::MissingObject {
                oid: oid@,
            },
            GitAcquisitionIssue::UnexpectedObjectType { oid, expected, actual } =>
                GitAcquisitionIssue::UnexpectedObjectType {
                oid: oid@,
                expected,
                actual: actual@,
            },
            GitAcquisitionIssue::ObjectTooLarge { oid, kind, limit, actual } =>
                GitAcquisitionIssue::ObjectTooLarge { oid: oid@, kind, limit, actual },
            GitAcquisitionIssue::MalformedObject { kind, detail } =>
                GitAcquisitionIssue::MalformedObject { kind, detail: detail@ },
            GitAcquisitionIssue::MissingSubdir { subdir } => GitAcquisitionIssue::MissingSubdir {
                subdir: subdir@,
            },
            GitAcquisitionIssue::SubdirNotTree { path, mode } =>
                GitAcquisitionIssue::SubdirNotTree { path: path@, mode: mode@ },
            GitAcquisitionIssue::NonUtf8Name { parent } => GitAcquisitionIssue::NonUtf8Name {
                parent: match parent {
                    Some(parent) => Some(parent@),
                    None => None,
                },
            },
            GitAcquisitionIssue::InvalidPath { detail } => GitAcquisitionIssue::InvalidPath {
                detail: detail@,
            },
            GitAcquisitionIssue::SymbolicLink { path } => GitAcquisitionIssue::SymbolicLink {
                path: path@,
            },
            GitAcquisitionIssue::Gitlink { path } => GitAcquisitionIssue::Gitlink { path: path@ },
            GitAcquisitionIssue::UnsupportedMode { path, mode } =>
                GitAcquisitionIssue::UnsupportedMode { path: path@, mode: mode@ },
            GitAcquisitionIssue::TraversalLimitExceeded { limit } =>
                GitAcquisitionIssue::TraversalLimitExceeded { limit },
            GitAcquisitionIssue::TooManyFiles { limit, actual } =>
                GitAcquisitionIssue::TooManyFiles { limit, actual },
            GitAcquisitionIssue::RawTreesTooLarge { limit, actual } =>
                GitAcquisitionIssue::RawTreesTooLarge { limit, actual },
            GitAcquisitionIssue::TreeTooLarge { limit, actual } =>
                GitAcquisitionIssue::TreeTooLarge { limit, actual },
            GitAcquisitionIssue::DigestMismatch { expected, actual } =>
                GitAcquisitionIssue::DigestMismatch { expected: expected@, actual: actual@ },
            GitAcquisitionIssue::InvalidPack { detail } => GitAcquisitionIssue::InvalidPack {
                detail: detail@,
            },
        }
    }
}

/// An optional exit code as debugging output writes it.
pub open spec fn exit_code_notation(code: Option<i32>) -> Seq<char> {
    match code {
        None => "None"@,
        Some(value) => if value < 0 {
            "Some(-"@ + text::decimal((-value) as nat) + ")"@
        } else {
            "Some("@ + text::decimal(value as nat) + ")"@
        },
    }
}

/// The message of an issue.
pub open spec fn issue_message(issue: GitAcquisitionIssue<Seq<char>>) -> Seq<char> {
    match issue {
        GitAcquisitionIssue::SelectorResolutionUnavailable =>
            "the configured Git process adapter cannot resolve moving selectors"@,
        GitAcquisitionIssue::InvalidSelectorOutput { detail } =>
            "invalid Git selector resolution: "@ + detail,
        GitAcquisitionIssue::ScratchRootMustBeAbsolute => "scratch root must be absolute"@,
        GitAcquisitionIssue::ScratchRootMissing => "scratch root does not exist"@,
        GitAcquisitionIssue::ScratchRootNotDirectory =>
            "scratch root path contains a non-directory"@,
        GitAcquisitionIssue::ScratchRootSymbolicLink =>
            "scratch root path contains a symbolic link"@,
        GitAcquisitionIssue::ScratchRootWrongOwner { expected_uid, actual_uid } =>
            "scratch owner uid must be "@ + text::decimal(expected_uid as nat) + ", found "@
                + text::decimal(actual_uid as nat),
        GitAcquisitionIssue::ScratchRootUnexpectedMode { expected, actual } =>
            "scratch mode must be "@ + text::octal4(expected as nat) + ", found "@ + text::octal4(
            actual as nat,
        ),
        GitAcquisitionIssue::ScratchRootNotEmpty => "scratch root must be empty"@,
        GitAcquisitionIssue::ProtectedStateOverlap => "scratch overlaps the protected state root"@,
        GitAcquisitionIssue::ScratchRootObservationChanged =>
            "scratch root binding changed during acquisition"@,
        GitAcquisitionIssue::ProcessIo { stage, operation, detail } => stage.words() + ": "@
            + operation + ": "@ + detail,
        GitAcquisitionIssue::Timeout { stage, limit } => stage.words() + " exceeded the "@
            + time::seconds_notation(limit.secs_part(), limit.nanos_part()) + "s timeout"@,
        GitAcquisitionIssue::OutputLimitExceeded { stage, stream, limit } => stage.words() + " "@
            + stream.words() + " exceeded "@ + text::decimal(limit as nat) + " bytes"@,
        GitAcquisitionIssue::TransferLimitExceeded { stage, limit } => stage.words()
            + " exceeded the "@ + text::decimal(limit as nat) + "-byte transfer limit"@,
        GitAcquisitionIssue::ProcessFailed { stage, code, detail } => if detail.len() == 0 {
            stage.words() + " failed with exit code "@ + exit_code_notation(code)
        } else {
            stage.words() + " failed with exit code "@ + exit_code_notation(code) + ": "@ + detail
        },
        GitAcquisitionIssue::MissingObject { oid } => "Git object "@ + oid + " is missing"@,
        GitAcquisitionIssue::UnexpectedObjectType { oid, expected, actual } => "Git object "@ + oid
            + " must be "@ + expected.name() + ", found "@ + actual,
        GitAcquisitionIssue::ObjectTooLarge { oid, kind, limit, actual } => "Git "@ + kind.name()
            + " object "@ + oid + " is "@ + text::decimal(actual as nat) + " bytes; limit is "@
            + text::decimal(limit as nat),
        GitAcquisitionIssue::MalformedObject { kind, detail } => "malformed Git "@ + kind.name()
            + " object: "@ + detail,
        GitAcquisitionIssue::MissingSubdir { subdir } => "Git pack subdirectory "@ + subdir
            + " is missing"@,
        GitAcquisitionIssue::SubdirNotTree { path, mode } => "Git pack subdirectory "@ + path
            + " has mode "@ + mode + ", not a tree"@,
        GitAcquisitionIssue::NonUtf8Name { parent: Some(parent) } => "Git tree below "@ + parent
            + " contains a non-UTF-8 name"@,
        GitAcquisitionIssue::NonUtf8Name { parent: None } => "Git tree contains a non-UTF-8 name"@,
        GitAcquisitionIssue::InvalidPath { detail } => detail,
        GitAcquisitionIssue::SymbolicLink { path } => "Git tree path "@ + path
            + " is a symbolic link"@,
        GitAcquisitionIssue::Gitlink { path } => "Git tree path "@ + path
            + " is a submodule link"@,
        GitAcquisitionIssue::UnsupportedMode { path, mode } => "Git tree path "@ + path
            + " has unsupported mode "@ + mode,
        GitAcquisitionIssue::TraversalLimitExceeded { limit } => "Git tree traversal exceeds "@
            + text::decimal(limit as nat) + " entries"@,
        GitAcquisitionIssue::TooManyFiles { limit, actual } => "Git tree contains "@
            + text::decimal(actual as nat) + " files; limit is "@ + text::decimal(limit as nat),
        GitAcquisitionIssue::RawTreesTooLarge { limit, actual } => "Git raw tree data is "@
            + text::decimal(actual as nat) + " bytes; limit is "@ + text::decimal(limit as nat),
        GitAcquisitionIssue::TreeTooLarge { limit, actual } => "Git selected tree contains "@
            + text::decimal(actual as nat) + " blob bytes; limit is "@ + text::decimal(
            limit as nat,
        ),
        GitAcquisitionIssue::DigestMismatch { expected, actual } =>
            "Git pack digest mismatch: lock requires "@ + expected + ", captured "@ + actual,
        GitAcquisitionIssue::InvalidPack { detail } => "invalid Git pack: "@ + detail,
    }
}

fn exit_code_text(code: Option<i32>) -> (text: String)
    ensures
        text@ == exit_code_notation(code),
{
    match code {
        None => "None".to_owned(),
        Some(value) => {
            if value < 0 {
                let magnitude: u64 = (-(value as i64)) as u64;
                concat3("Some(-", decimal_text(magnitude).as_str(), ")")
            } else {
                concat3("Some(", decimal_text(value as u64).as_str(), ")")
            }
        },
    }
}

impl GitAcquisitionIssue<String> {
    /// Returns the message of the issue.
    pub fn message(&self) -> (message: String)
        ensures
            message@ == issue_message(self@),
    {
        match self {
            GitAcquisitionIssue::SelectorResolutionUnavailable =>
                "the configured Git process adapter cannot resolve moving selectors".to_owned(),
            GitAcquisitionIssue::InvalidSelectorOutput { detail } => concat2(
                "invalid Git selector resolution: ",
                detail.as_str(),
            ),
            GitAcquisitionIssue::ScratchRootMustBeAbsolute =>
                "scratch root must be absolute".to_owned(),
            GitAcquisitionIssue::ScratchRootMissing => "scratch root does not exist".to_owned(),
            GitAcquisitionIssue::ScratchRootNotDirectory =>
                "scratch root path contains a non-directory".to_owned(),
            GitAcquisitionIssue::ScratchRootSymbolicLink =>
                "scratch root path contains a symbolic link".to_owned(),
            GitAcquisitionIssue::ScratchRootWrongOwner { expected_uid, actual_uid } => concat4(
                "scratch owner uid must be ",
                decimal_text(*expected_uid as u64).as_str(),
                ", found ",
                decimal_text(*actual_uid as u64).as_str(),
            ),
            GitAcquisitionIssue::ScratchRootUnexpectedMode { expected, actual } => concat4(
                "scratch mode must be ",
                octal4_text(*expected).as_str(),
                ", found ",
                octal4_text(*actual).as_str(),
            ),
            GitAcquisitionIssue::ScratchRootNotEmpty => "scratch root must be empty".to_owned(),
            GitAcquisitionIssue::ProtectedStateOverlap =>
                "scratch overlaps the protected state root".to_owned(),
            GitAcquisitionIssue::ScratchRootObservationChanged =>
                "scratch root binding changed during acquisition".to_owned(),
            GitAcquisitionIssue::ProcessIo { stage, operation, detail } => concat5(
                stage.message(),
                ": ",
                operation.as_str(),
                ": ",
                detail.as_str(),
            ),
            GitAcquisitionIssue::Timeout { stage, limit } => concat4(
                stage.message(),
                " exceeded the ",
                limit.seconds_text().as_str(),
                "s timeout",
            ),
            GitAcquisitionIssue::OutputLimitExceeded { stage, stream, limit } => {
                let start = concat4(stage.message(), " ", stream.message(), " exceeded ");
                concat3(start.as_str(), decimal_text(*limit).as_str(), " bytes")
            },
            GitAcquisitionIssue::TransferLimitExceeded { stage, limit } => concat4(
                stage.message(),
                " exceeded the ",
                decimal_text(*limit).as_str(),
                "-byte transfer limit",
            ),
            GitAcquisitionIssue::ProcessFailed { stage, code, detail } => {
                let start = concat3(
                    stage.message(),
                    " failed with exit code ",
                    exit_code_text(*code).as_str(),
                );
                if detail.as_str().is_empty() {
                    start
                } else {
                    concat3(start.as_str(), ": ", detail.as_str())
                }
            },
            GitAcquisitionIssue::MissingObject { oid } => concat3(
                "Git object ",
                oid.as_str(),
                " is missing",
            ),
            GitAcquisitionIssue::UnexpectedObjectType { oid, expected, actual } => {
                let start = concat4("Git object ", oid.as_str(), " must be ", expected.as_str());
                concat3(start.as_str(), ", found ", actual.as_str())
            },
            GitAcquisitionIssue::ObjectTooLarge { oid, kind, limit, actual } => {
                let start = concat5("Git ", kind.as_str(), " object ", oid.as_str(), " is ");
                concat4(
                    start.as_str(),
                    decimal_text(*actual).as_str(),
                    " bytes; limit is ",
                    decimal_text(*limit).as_str(),
                )
            },
            GitAcquisitionIssue::MalformedObject { kind, detail } => concat4(
                "malformed Git ",
                kind.as_str(),
                " object: ",
                detail.as_str(),
            ),
            GitAcquisitionIssue::MissingSubdir { subdir } => concat3(
                "Git pack subdirectory ",
                subdir.as_str(),
                " is missing",
            ),
            GitAcquisitionIssue::SubdirNotTree { path, mode } => concat5(
                "Git pack subdirectory ",
                path.as_str(),
                " has mode ",
                mode.as_str(),
                ", not a tree",
            ),
            GitAcquisitionIssue::NonUtf8Name { parent } => match parent {
                Some(parent) => concat3(
                    "Git tree below ",
                    parent.as_str(),
                    " contains a non-UTF-8 name",
                ),
                None => "Git tree contains a non-UTF-8 name".to_owned(),
            },
            GitAcquisitionIssue::InvalidPath { detail } => detail.clone(),
            GitAcquisitionIssue::SymbolicLink { path } => concat3(
                "Git tree path ",
                path.as_str(),
                " is a symbolic link",
            ),
            GitAcquisitionIssue::Gitlink { path } => concat3(
                "Git tree path ",
                path.as_str(),
                " is a submodule link",
            ),
            GitAcquisitionIssue::UnsupportedMode { path, mode } => concat4(
                "Git tree path ",
                path.as_str(),
                " has unsupported mode ",
                mode.as_str(),
            ),
            GitAcquisitionIssue::TraversalLimitExceeded { limit } => concat3(
                "Git tree traversal exceeds ",
                decimal_text(*limit as u64).as_str(),
                " entries",
            ),
            GitAcquisitionIssue::TooManyFiles { limit, actual } => concat4(
                "Git tree contains ",
                decimal_text(*actual as u64).as_str(),
                " files; limit is ",
                decimal_text(*limit as u64).as_str(),
            ),
            GitAcquisitionIssue::RawTreesTooLarge { limit, actual } => concat4(
                "Git raw tree data is ",
                decimal_text(*actual).as_str(),
                " bytes; limit is ",
                decimal_text(*limit).as_str(),
            ),
            GitAcquisitionIssue::TreeTooLarge { limit, actual } => concat4(
                "Git selected tree contains ",
                decimal_text(*actual).as_str(),
                " blob bytes; limit is ",
                decimal_text(*limit).as_str(),
            ),
            GitAcquisitionIssue::DigestMismatch { expected, actual } => concat4(
                "Git pack digest mismatch: lock requires ",
                expected.as_str(),
                ", captured ",
                actual.as_str(),
            ),
            GitAcquisitionIssue::InvalidPack { detail } => concat2(
                "invalid Git pack: ",
                detail.as_str(),
            ),
        }
    }
}

/// A malformed object with its parser detail.
pub fn malformed(kind: GitObjectKind, detail: &str) -> (issue: GitAcquisitionIssue)
    ensures
        issue@ == (GitAcquisitionIssue::<Seq<char>>::MalformedObject { kind, detail: detail@ }),
{
    GitAcquisitionIssue::MalformedObject { kind, detail: detail.to_owned() }
}

} // verus!
