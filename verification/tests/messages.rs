//! The words in which failures are told.

use malm_engine::canonical::CanonicalObjectKind;
use malm_engine::error::{
    ArchivePublicationError, CanonicalObjectIssue, DirectorySafetyIssue, EngineConfigError,
    EngineError, GitSource, GraphAcquisitionError, LockFileIssue, LockOperationError,
    LockProblem, PackCaptureIssue, PackObjectIssue, PreparedStoreIssue, StoreMetadataIssue,
};
use malm_engine::git::config::GitAcquisitionConfigError;
use malm_engine::git::issue::{GitAcquisitionIssue, GitCommandStage, GitOutputStream};
use malm_engine::git::object::GitObjectKind;
use malm_engine::graph_sources::LockSource;
use malm_engine::ports::{no_execution_adapter, GitPackFile};
use malm_engine::prepare_error::{
    PackResourceKind, StaticDeploymentPrepareError, StaticPrepareError,
};
use malm_engine::store_types::{StateDirectory, StoreStatus};
use malm_engine::time::Duration;

fn text(words: &str) -> String {
    words.to_owned()
}

fn path() -> Vec<u8> {
    b"/p".to_vec()
}

fn git_source() -> GitSource {
    GitSource { url: text("https://u"), commit: text("sha1-c"), subdir: text("s") }
}

#[test]
fn directory_and_metadata_issues() {
    for (issue, words) in [
        (
            DirectorySafetyIssue::WrongOwner { expected_uid: 1, actual_uid: 2 },
            "owned by uid 2, not current effective uid 1",
        ),
        (
            DirectorySafetyIssue::GroupOrOtherWritable { mode: 0o777 },
            "mode 0777 permits writes by group or other",
        ),
        (
            DirectorySafetyIssue::SpecialModeBitsSet { mode: 0o1700 },
            "mode 1700 contains special mode bits",
        ),
        (
            DirectorySafetyIssue::UnexpectedMode { expected: 0o700, actual: 0o55 },
            "mode must be 0700, found 0055",
        ),
        (
            DirectorySafetyIssue::AncestryLimitExceeded { limit: 4096 },
            "physical ancestry exceeds 4096 directories",
        ),
    ] {
        assert_eq!(issue.message(), words);
    }
    for (issue, words) in [
        (
            StoreMetadataIssue::MarkerMissingWithOtherEntries,
            "descriptor.json is missing but the state root is not empty",
        ),
        (StoreMetadataIssue::MarkerNotRegular, "descriptor.json is not a regular file"),
        (
            StoreMetadataIssue::MarkerTooLarge { limit: 4096, actual: 4097 },
            "descriptor.json is 4097 bytes; limit is 4096",
        ),
        (
            StoreMetadataIssue::UnexpectedRootEntry,
            "state root contains an unrecognized top-level entry",
        ),
        (
            StoreMetadataIssue::InvalidRootEntry { detail: text("d") },
            "invalid top-level final-root entry: d",
        ),
        (
            StoreMetadataIssue::WrongOwner { expected_uid: 1, actual_uid: 2 },
            "descriptor.json is owned by uid 2, not current effective uid 1",
        ),
        (
            StoreMetadataIssue::UnexpectedMode { actual: 0o644 },
            "descriptor.json mode must be 0600, found 0644",
        ),
        (
            StoreMetadataIssue::MultipleLinks { links: 3 },
            "descriptor.json must have one link, found 3",
        ),
        (
            StoreMetadataIssue::ObservationChanged,
            "descriptor.json changed while it was being inspected",
        ),
        (
            StoreMetadataIssue::InvalidDescriptor { detail: text("d") },
            "invalid final-root descriptor: d",
        ),
    ] {
        assert_eq!(issue.message(), words);
    }
}

#[test]
fn object_issues() {
    for (issue, words) in [
        (CanonicalObjectIssue::Missing, "object is not cached"),
        (
            CanonicalObjectIssue::ContainerNotDirectory,
            "canonical-object container is not a directory",
        ),
        (CanonicalObjectIssue::ObjectNotRegular, "object is not a regular file"),
        (
            CanonicalObjectIssue::WrongOwner { expected_uid: 1, actual_uid: 2 },
            "owner uid must be 1, found 2",
        ),
        (
            CanonicalObjectIssue::UnexpectedMode { expected: 0o400, actual: 0o600 },
            "mode must be 0400, found 0600",
        ),
        (
            CanonicalObjectIssue::UnexpectedLinks { expected: 1, actual: 2 },
            "link count must be 1, found 2",
        ),
        (
            CanonicalObjectIssue::ObjectTooLarge { limit: 3, actual: 4 },
            "object is 4 bytes; limit is 3",
        ),
        (
            CanonicalObjectIssue::DigestMismatch { actual: text("x") },
            "object bytes compute digest x",
        ),
        (CanonicalObjectIssue::InvalidEncoding { detail: text("d") }, "d"),
        (
            CanonicalObjectIssue::ObservationChanged,
            "canonical-object observation changed during the operation",
        ),
    ] {
        assert_eq!(issue.message(), words);
    }
    for (issue, words) in [
        (PackObjectIssue::Missing, "object is not cached"),
        (PackObjectIssue::ContainerNotDirectory, "object-store container is not a directory"),
        (PackObjectIssue::ObjectNotRegular, "object is not a regular file"),
        (
            PackObjectIssue::WrongOwner { expected_uid: 1, actual_uid: 2 },
            "owner uid must be 1, found 2",
        ),
        (
            PackObjectIssue::UnexpectedMode { expected: 0o400, actual: 0o600 },
            "mode must be 0400, found 0600",
        ),
        (
            PackObjectIssue::UnexpectedLinks { expected: 1, actual: 2 },
            "link count must be 1, found 2",
        ),
        (PackObjectIssue::ObjectTooLarge { limit: 3, actual: 4 }, "object is 4 bytes; limit is 3"),
        (PackObjectIssue::DigestMismatch { actual: text("x") }, "object bytes compute digest x"),
        (PackObjectIssue::InvalidEncoding { detail: text("d") }, "d"),
        (
            PackObjectIssue::ObservationChanged,
            "object-store observation changed during the operation",
        ),
    ] {
        assert_eq!(issue.message(), words);
    }
}

#[test]
fn capture_issues() {
    for (issue, words) in [
        (PackCaptureIssue::SourceRootMustBeAbsolute, "source root must be absolute"),
        (PackCaptureIssue::SourceRootMissing, "source root does not exist"),
        (PackCaptureIssue::SourceRootNotDirectory, "source root path contains a non-directory"),
        (PackCaptureIssue::ProtectedStateOverlap, "source overlaps the protected state root"),
        (PackCaptureIssue::NonUtf8Name, "source entry name is not UTF-8"),
        (PackCaptureIssue::InvalidPath { detail: text("d") }, "d"),
        (PackCaptureIssue::SymbolicLink, "symbolic links are not valid pack entries"),
        (PackCaptureIssue::UnsupportedFileType, "special files are not valid pack entries"),
        (PackCaptureIssue::MountBoundary, "source traversal cannot cross a nested mount"),
        (
            PackCaptureIssue::UnexpectedLinks { expected: 1, actual: 2 },
            "link count must be 1, found 2",
        ),
        (
            PackCaptureIssue::FileTooLarge { limit: 3, actual: 4 },
            "source file is 4 bytes; limit is 3",
        ),
        (
            PackCaptureIssue::TooManyFiles { limit: 3, actual: 4 },
            "source contains 4 files; limit is 3",
        ),
        (
            PackCaptureIssue::TreeTooLarge { limit: 3, actual: 4 },
            "source contains 4 file bytes; limit is 3",
        ),
        (
            PackCaptureIssue::TraversalLimitExceeded { limit: 3 },
            "source traversal exceeds 3 entries",
        ),
        (PackCaptureIssue::MissingManifest, "source is missing malm-pack.kdl"),
        (
            PackCaptureIssue::DigestMismatch { expected: text("e"), actual: text("a") },
            "local source drift: lock requires e, captured a",
        ),
        (PackCaptureIssue::InvalidPack { detail: text("d") }, "invalid captured pack: d"),
        (PackCaptureIssue::ObservationChanged, "source changed while it was being captured"),
    ] {
        assert_eq!(issue.message(), words);
    }
}

#[test]
fn prepared_store_issues() {
    let mut told = Vec::new();
    for issue in [
        PreparedStoreIssue::PublicationBusy,
        PreparedStoreIssue::MissingPlan,
        PreparedStoreIssue::MissingBlob,
        PreparedStoreIssue::ContainerNotDirectory,
        PreparedStoreIssue::EntryNotRegular,
        PreparedStoreIssue::WrongOwner { expected_uid: 1, actual_uid: 2 },
        PreparedStoreIssue::UnexpectedMode { expected: 0o400, actual: 0o600 },
        PreparedStoreIssue::UnexpectedLinks { expected: 1, actual: 2 },
        PreparedStoreIssue::EntryTooLarge { limit: 3, actual: 4 },
        PreparedStoreIssue::DigestMismatch { expected: text("e"), actual: text("a") },
        PreparedStoreIssue::InvalidRecord { detail: text("d") },
        PreparedStoreIssue::ObservationChanged,
        PreparedStoreIssue::TargetOwnershipConflict {
            requesting_namespace: text("n"),
            owning_namespace: text("m"),
            requesting_authority: text("home"),
            owning_authority: text("etc"),
            requested_path: text("a"),
            owned_path: text("b"),
            overlap: text("exact"),
        },
        PreparedStoreIssue::UnownedTargetMutation {
            namespace: text("n"),
            authority: text("home"),
            relative_path: text("a"),
        },
        PreparedStoreIssue::UnknownTargetAuthority(text("home")),
        PreparedStoreIssue::DirectoryOccupancyConflicts { retained: 2, omitted_count: 1 },
        PreparedStoreIssue::UnrestorableLocalModification {
            authority: text("home"),
            relative_path: text("a"),
        },
        PreparedStoreIssue::UnrestorableMissingTarget {
            authority: text("home"),
            relative_path: text("a"),
        },
        PreparedStoreIssue::MissingManagedAncestor {
            authority: text("home"),
            relative_path: text("a/b"),
            missing_prefix: text("a"),
        },
        PreparedStoreIssue::UnsafeTarget { detail: text("d") },
        PreparedStoreIssue::UnknownArtifact(text("id")),
    ] {
        told.push(issue.message());
    }
    assert_eq!(
        told,
        [
            "another prepared-store publication or retention operation is in progress",
            "prepared plan is missing",
            "prepared artifact blob is missing",
            "store container is not a directory",
            "store entry is not a regular file",
            "store entry is owned by uid 2, expected 1",
            "store entry mode is 0600, expected 0400",
            "store entry has 2 links, expected 1",
            "store entry has 4 bytes; limit is 3",
            "store entry digest mismatch: expected e, computed a",
            "invalid prepared record: d",
            "store or target observation changed",
            "namespace n target home:a has an exact ownership conflict with namespace m target etc:b",
            "namespace n cannot mutate unowned target home:a",
            "target authority home is not configured",
            "directory occupancy conflicts block target preparation (2 paths retained, 1 omitted)",
            "target home:a was modified outside malm and this plan cannot restore it; run `malm apply` to restore the managed content, or update the source to adopt the local changes",
            "target home:a was deleted outside malm and this plan cannot recreate it; run `malm apply` to restore the managed content, or update the source to drop the target",
            "target home:a/b lies under missing directory home:a and this plan does not create it; run `malm apply` to restore the managed directory",
            "unsafe managed target: d",
            "operation references artifact id",
        ]
    );
}

const RESET: &str = "the incompatible root was left unchanged; move or remove the entire root for a clean reset (no state, history, or cache import is available)";

#[test]
fn engine_errors() {
    for (error, words) in [
        (EngineError::ReadOnlyStore, text("store is configured read-only")),
        (
            EngineError::StoreNotReady { status: StoreStatus::Uninitialized },
            text("store is not ready: Uninitialized"),
        ),
        (
            EngineError::StateParentMissing { path: path() },
            text("state parent /p does not exist and cannot be created safely; create it (mode 700) before initializing Malm"),
        ),
        (
            EngineError::UnsafeDirectory {
                directory: StateDirectory::StateParent,
                path: path(),
                reason: DirectorySafetyIssue::SpecialModeBitsSet { mode: 0o1700 },
            },
            text("refusing unsafe state parent /p: mode 1700 contains special mode bits"),
        ),
        (
            EngineError::RootObservationChanged { path: path() },
            text("state root binding changed while inspecting /p"),
        ),
        (
            EngineError::StateParentObservationChanged { path: path() },
            text("state parent binding changed while inspecting /p"),
        ),
        (
            EngineError::MalformedStoreMetadata {
                path: path(),
                reason: StoreMetadataIssue::MarkerNotRegular,
            },
            format!("malformed store metadata /p: descriptor.json is not a regular file; {RESET}"),
        ),
        (
            EngineError::UnsupportedStoreVersion { path: path(), expected: 1, found: 2 },
            format!("unsupported store schema in /p: expected exactly 1, found 2; {RESET}"),
        ),
        (
            EngineError::PackObject {
                digest: text("x"),
                path: path(),
                reason: PackObjectIssue::Missing,
            },
            text("invalid v1 pack object x at /p: object is not cached"),
        ),
        (
            EngineError::CanonicalObject {
                kind: CanonicalObjectKind::Symlink,
                digest: text("x"),
                path: path(),
                reason: CanonicalObjectIssue::Missing,
            },
            text("invalid v1 canonical symlink object x at /p: object is not cached"),
        ),
        (
            EngineError::PackCapture {
                root: b"/r".to_vec(),
                path: path(),
                reason: PackCaptureIssue::MissingManifest,
            },
            text("cannot capture local pack /r at /p: source is missing malm-pack.kdl"),
        ),
        (
            EngineError::PackCapture {
                root: b"/r".to_vec(),
                path: path(),
                reason: PackCaptureIssue::DigestMismatch { expected: text("e"), actual: text("a") },
            },
            text("cannot capture local pack /r at /p: local source drift: lock requires e, captured a; the source changed since it was locked — review the change and run `malm source lock update --source /r`"),
        ),
        (
            EngineError::GitAcquisition {
                git_source: git_source(),
                scratch_root: path(),
                reason: GitAcquisitionIssue::ScratchRootMissing,
            },
            text("cannot acquire exact Git pack https://u at sha1-c subdir s using scratch /p: scratch root does not exist"),
        ),
        (
            EngineError::PreparedStore { path: path(), reason: PreparedStoreIssue::MissingPlan },
            text("prepared deployment error at /p: prepared plan is missing"),
        ),
        (
            EngineError::Commit { detail: text("d") },
            text("commit state validation failed: d"),
        ),
        (
            EngineError::Io { operation: text("open"), path: vec![b'/', 0xff], detail: text("d") },
            text("open /\u{fffd}: d"),
        ),
        (
            EngineError::WorkerPanic { operation: text("drain") },
            text("drain worker panicked"),
        ),
    ] {
        assert_eq!(error.message(), words);
    }
}

#[test]
fn configuration_errors() {
    for (error, words) in [
        (
            EngineConfigError::InvalidStateRoot(text("the path is relative")),
            text("invalid state root: the path is relative"),
        ),
        (
            EngineConfigError::InvalidTargetRoot { authority: text("home"), path: path() },
            text("target authority home must name an absolute non-root path, got /p"),
        ),
        (
            EngineConfigError::TargetOverlapsState { authority: text("home"), path: path() },
            text("target authority home at /p is inside protected state"),
        ),
        (
            EngineConfigError::DuplicateTargetAuthority(text("home")),
            text("target authority home is configured twice"),
        ),
    ] {
        assert_eq!(error.message(), words);
    }
    for (error, words) in [
        (
            GitAcquisitionConfigError::ExecutableMustBeAbsolute { executable: b"git".to_vec() },
            "Git executable must be absolute, got git",
        ),
        (GitAcquisitionConfigError::TimeoutMustBePositive, "Git timeout must be positive"),
        (
            GitAcquisitionConfigError::TimeoutTooLarge {
                actual: Duration::from_millis(600_250),
                maximum_secs: 600,
            },
            "Git timeout 600.25s exceeds maximum 600s",
        ),
        (
            GitAcquisitionConfigError::TransferLimitMustBePositive,
            "Git transfer limit must be positive",
        ),
        (
            GitAcquisitionConfigError::TransferLimitTooLarge { actual: 9, maximum: 8 },
            "Git transfer limit 9 bytes exceeds maximum 8 bytes",
        ),
    ] {
        assert_eq!(error.message(), words);
    }
    assert_eq!(
        GitPackFile::with_mode(text("a"), Vec::new(), 0o600).unwrap_err().message(),
        "Git pack file mode must be 0644 or 0755, got 0600"
    );
    assert_eq!(GitPackFile::with_mode(text("a"), Vec::new(), 0o600).unwrap_err().mode(), 0o600);
    assert_eq!(
        no_execution_adapter().reason(),
        "no format-component execution adapter was configured"
    );
}

#[test]
fn git_issues() {
    let mut told = Vec::new();
    for issue in [
        GitAcquisitionIssue::SelectorResolutionUnavailable,
        GitAcquisitionIssue::InvalidSelectorOutput { detail: text("d") },
        GitAcquisitionIssue::ScratchRootMustBeAbsolute,
        GitAcquisitionIssue::ScratchRootMissing,
        GitAcquisitionIssue::ScratchRootNotDirectory,
        GitAcquisitionIssue::ScratchRootSymbolicLink,
        GitAcquisitionIssue::ScratchRootWrongOwner { expected_uid: 1, actual_uid: 2 },
        GitAcquisitionIssue::ScratchRootUnexpectedMode { expected: 0o700, actual: 0o755 },
        GitAcquisitionIssue::ScratchRootNotEmpty,
        GitAcquisitionIssue::ProtectedStateOverlap,
        GitAcquisitionIssue::ScratchRootObservationChanged,
        GitAcquisitionIssue::ProcessIo {
            stage: GitCommandStage::Fetch,
            operation: text("spawn"),
            detail: text("d"),
        },
        GitAcquisitionIssue::Timeout {
            stage: GitCommandStage::Initialize,
            limit: Duration::from_millis(1500),
        },
        GitAcquisitionIssue::OutputLimitExceeded {
            stage: GitCommandStage::ReadObjects,
            stream: GitOutputStream::Stderr,
            limit: 3,
        },
        GitAcquisitionIssue::TransferLimitExceeded { stage: GitCommandStage::Fetch, limit: 3 },
        GitAcquisitionIssue::ProcessFailed {
            stage: GitCommandStage::ResolveSelector,
            code: Some(128),
            detail: text("d"),
        },
        GitAcquisitionIssue::ProcessFailed {
            stage: GitCommandStage::Fetch,
            code: None,
            detail: String::new(),
        },
        GitAcquisitionIssue::ProcessFailed {
            stage: GitCommandStage::Fetch,
            code: Some(-1),
            detail: String::new(),
        },
        GitAcquisitionIssue::MissingObject { oid: text("o") },
        GitAcquisitionIssue::UnexpectedObjectType {
            oid: text("o"),
            expected: GitObjectKind::Tree,
            actual: text("tag"),
        },
        GitAcquisitionIssue::ObjectTooLarge {
            oid: text("o"),
            kind: GitObjectKind::Blob,
            limit: 3,
            actual: 4,
        },
        GitAcquisitionIssue::MalformedObject { kind: GitObjectKind::Commit, detail: text("d") },
        GitAcquisitionIssue::MissingSubdir { subdir: text("s") },
        GitAcquisitionIssue::SubdirNotTree { path: text("s"), mode: text("100644") },
        GitAcquisitionIssue::NonUtf8Name { parent: None },
        GitAcquisitionIssue::NonUtf8Name { parent: Some(text("s")) },
        GitAcquisitionIssue::InvalidPath { detail: text("d") },
        GitAcquisitionIssue::SymbolicLink { path: text("s") },
        GitAcquisitionIssue::Gitlink { path: text("s") },
        GitAcquisitionIssue::UnsupportedMode { path: text("s"), mode: text("100600") },
        GitAcquisitionIssue::TraversalLimitExceeded { limit: 3 },
        GitAcquisitionIssue::TooManyFiles { limit: 3, actual: 4 },
        GitAcquisitionIssue::RawTreesTooLarge { limit: 3, actual: 4 },
        GitAcquisitionIssue::TreeTooLarge { limit: 3, actual: 4 },
        GitAcquisitionIssue::DigestMismatch { expected: text("e"), actual: text("a") },
        GitAcquisitionIssue::InvalidPack { detail: text("d") },
    ] {
        told.push(issue.message());
    }
    assert_eq!(
        told,
        [
            "the configured Git process adapter cannot resolve moving selectors",
            "invalid Git selector resolution: d",
            "scratch root must be absolute",
            "scratch root does not exist",
            "scratch root path contains a non-directory",
            "scratch root path contains a symbolic link",
            "scratch owner uid must be 1, found 2",
            "scratch mode must be 0700, found 0755",
            "scratch root must be empty",
            "scratch overlaps the protected state root",
            "scratch root binding changed during acquisition",
            "fetch exact object: spawn: d",
            "initialize scratch repository exceeded the 1.5s timeout",
            "read Git objects stderr exceeded 3 bytes",
            "fetch exact object exceeded the 3-byte transfer limit",
            "resolve moving selector failed with exit code Some(128): d",
            "fetch exact object failed with exit code None",
            "fetch exact object failed with exit code Some(-1)",
            "Git object o is missing",
            "Git object o must be tree, found tag",
            "Git blob object o is 4 bytes; limit is 3",
            "malformed Git commit object: d",
            "Git pack subdirectory s is missing",
            "Git pack subdirectory s has mode 100644, not a tree",
            "Git tree contains a non-UTF-8 name",
            "Git tree below s contains a non-UTF-8 name",
            "d",
            "Git tree path s is a symbolic link",
            "Git tree path s is a submodule link",
            "Git tree path s has unsupported mode 100600",
            "Git tree traversal exceeds 3 entries",
            "Git tree contains 4 files; limit is 3",
            "Git raw tree data is 4 bytes; limit is 3",
            "Git selected tree contains 4 blob bytes; limit is 3",
            "Git pack digest mismatch: lock requires e, captured a",
            "invalid Git pack: d",
        ]
    );
    assert_eq!(GitOutputStream::Stdout.message(), "stdout");
}

#[test]
fn lock_and_graph_errors() {
    let mut told = Vec::new();
    for issue in [
        LockFileIssue::Busy,
        LockFileIssue::AlreadyExists,
        LockFileIssue::Missing,
        LockFileIssue::NotRegular,
        LockFileIssue::WrongOwner { expected_uid: 1, actual_uid: 2 },
        LockFileIssue::UnexpectedMode { expected: 0o644, actual: 0o600 },
        LockFileIssue::UnexpectedLinks { expected: 1, actual: 2 },
        LockFileIssue::TooLarge { limit: 3, actual: 4 },
        LockFileIssue::Invalid { detail: text("d") },
        LockFileIssue::ObservationChanged,
        LockFileIssue::UnsafeStaging,
        LockFileIssue::Io { operation: text("open lock"), detail: text("d") },
    ] {
        told.push(LockOperationError::LockFile { path: path(), reason: issue }.message(""));
    }
    for error in [
        LockOperationError::MissingFormatComponentExecutionProfile,
        LockOperationError::LocalSourceNotGranted { locator: text("l") },
        LockOperationError::GitSourceNotGranted { url: text("u") },
        LockOperationError::MissingGitScratch {
            git_source: GitSource { url: text("u"), commit: text("c"), subdir: text(".") },
        },
        LockOperationError::PackageMismatch {
            source_identity: LockSource::Root,
            expected: text("e"),
            actual: text("a"),
        },
        LockOperationError::SourceChanged {
            source_identity: LockSource::Root,
            expected: text("e"),
            actual: text("a"),
        },
        LockOperationError::Source {
            source_identity: LockSource::Root,
            source: EngineError::ReadOnlyStore,
        },
        LockOperationError::CachedPackInvalid {
            source_identity: LockSource::Root,
            digest: text("x"),
            detail: text("d"),
        },
        LockOperationError::Validation { problem: LockProblem::Invalid { detail: text("d") } },
        LockOperationError::Validation {
            problem: LockProblem::TooManyEdges { limit: 3, actual: 4 },
        },
        LockOperationError::EncodedLockTooLarge { limit: 3, actual: 4 },
        LockOperationError::ResourceLimitExceeded { resource: text("r"), limit: 3, actual: 4 },
        LockOperationError::Assembly { detail: text("d") },
    ] {
        told.push(error.message("Root"));
    }
    assert_eq!(
        told,
        [
            "lock file /p: another lock operation is in progress",
            "lock file /p: lock already exists",
            "lock file /p: lock does not exist",
            "lock file /p: lock is not a regular file",
            "lock file /p: lock owner uid must be 1, found 2",
            "lock file /p: lock mode must be 0644, found 0600",
            "lock file /p: lock link count must be 1, found 2",
            "lock file /p: lock is 4 bytes; limit is 3",
            "lock file /p: d",
            "lock file /p: lock changed during the operation",
            "lock file /p: lock staging entry is not a canonical generated lock",
            "lock file /p: open lock: d",
            "lock resolution found format-component/v1 declarations but no execution profile was supplied",
            "local source l was not explicitly granted",
            "Git source u was not explicitly granted",
            "missing caller-owned scratch for Git source u at c",
            "source Root declares package a, dependency requires e",
            "source Root changed during lock resolution: expected e, found a",
            "resolve source Root: store is configured read-only",
            "cached pack x for source Root is invalid: d",
            "build lock graph: d",
            "build lock graph: Root",
            "generated lock is 4 bytes; limit is 3",
            "lock resolution r is 4; limit is 3",
            "verify generated lock: d",
        ]
    );
    assert_eq!(
        ArchivePublicationError::UnexpectedRoot { expected: text("e"), actual: text("a") }.message(),
        "decoded archive root is a, reviewed config requires e"
    );
    assert_eq!(
        GraphAcquisitionError::Source {
            node_id: text("n"),
            source: EngineError::ReadOnlyStore,
        }
        .message(),
        "acquire locked node n: store is configured read-only"
    );
}

#[test]
fn preparation_errors() {
    let mut told = Vec::new();
    for error in [
        StaticPrepareError::MissingRootConfig,
        StaticPrepareError::MissingConfigDocument { document: text("d") },
        StaticPrepareError::UndeclaredConfigDocument { node: text("n"), path: text("p") },
        StaticPrepareError::GraphDigestMismatch { request: text("r"), assembled: text("a") },
        StaticPrepareError::InvalidConfig { detail: text("d") },
        StaticPrepareError::UnknownDocumentAuthority { label: text("l"), identity: text("i") },
        StaticPrepareError::AmbiguousDocumentAuthority { label: text("l"), identity: text("i") },
        StaticPrepareError::MissingPackFile { node: text("n"), path: text("p") },
        StaticPrepareError::UndeclaredPackFile {
            node: text("n"),
            path: text("p"),
            kind: PackResourceKind::Template,
        },
        StaticPrepareError::PackFileLengthMismatch {
            node: text("n"),
            path: text("p"),
            expected: 3,
            actual: 4,
        },
        StaticPrepareError::PackFileDigestMismatch {
            node: text("n"),
            path: text("p"),
            domain: text("raw"),
            expected: text("e"),
            actual: text("a"),
        },
        StaticPrepareError::InvalidIdentifier { detail: text("d") },
        StaticPrepareError::InvalidGeneratedRequest { detail: text("d") },
        StaticPrepareError::UnknownFormatComponent { digest: text("x") },
        StaticPrepareError::AmbiguousFormatComponent { digest: text("x") },
        StaticPrepareError::TransformContract { detail: text("d") },
        StaticPrepareError::TransformSemantic { kind: text("Invalid"), detail: text("d") },
        StaticPrepareError::FormatComponentInfrastructure { detail: text("d") },
        StaticPrepareError::UnsupportedArchiveDecoder { name: text("zip"), version: 2 },
        StaticPrepareError::Archive {
            source: ArchivePublicationError::Store { source: EngineError::ReadOnlyStore },
        },
        StaticPrepareError::Store { source: EngineError::ReadOnlyStore },
    ] {
        told.push(error.message());
    }
    assert_eq!(
        told,
        [
            "root pack has no rich malm.kdl",
            "captured config document d is absent from its pack",
            "locked pack n does not declare config entry point p",
            "prepare request graph r does not match assembled graph a",
            "invalid rich config: d",
            "unknown locked pack authority l@i",
            "locked pack authority l@i is ambiguous",
            "locked pack n lacks declared file p",
            "locked pack n does not declare p as a template",
            "locked pack n file p has 4 bytes, config reviewed 3",
            "locked pack n file p raw digest is a, config reviewed e",
            "d",
            "d",
            "locked graph has no format component x",
            "locked graph contains multiple declarations for format component x",
            "invalid format-transform contract value: d",
            "format transform returned Invalid: d",
            "format-component infrastructure failed: d",
            "unsupported archive decoder \"zip\" version 2",
            "publish archive/v1 objects: store is configured read-only",
            "store is configured read-only",
        ]
    );
    for (error, words) in [
        (
            StaticDeploymentPrepareError::GitConfigurationRequired,
            "Git process configuration is required for a non-cached lock containing Git nodes",
        ),
        (
            StaticDeploymentPrepareError::GitConfigurationNotApplicable,
            "Git acquisition authority requires a lock containing Git nodes",
        ),
        (
            StaticDeploymentPrepareError::GraphAcquisition {
                source: GraphAcquisitionError::Assembly { detail: text("d") },
            },
            "assemble acquired graph: d",
        ),
        (StaticDeploymentPrepareError::GraphAssembly { detail: text("d") }, "d"),
        (StaticDeploymentPrepareError::State { detail: text("d") }, "d"),
        (
            StaticDeploymentPrepareError::Static { source: StaticPrepareError::MissingRootConfig },
            "root pack has no rich malm.kdl",
        ),
    ] {
        assert_eq!(error.message(), words);
    }
}
