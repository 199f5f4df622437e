//! State roots, mount evidence, locators, and what clients are told of store failures.

use malm_engine::engine_config::{state_root_is_usable, EngineConfig};
use malm_engine::error::{
    DirectorySafetyIssue, EngineConfigError, EngineError, GitSource, PackCaptureIssue,
    PackObjectIssue, StoreMetadataIssue,
};
use malm_engine::git::issue::GitAcquisitionIssue;
use malm_engine::graph_sources::resolve_locator;
use malm_engine::mount_identity::{
    accept_mount_table, decode_mount_path, mount_alias_from_evidence,
};
use malm_engine::store_error::{
    answer_initialization, answer_status, directory_safety_reason_v1, store_directory_v1, store_error_v1, store_metadata_reason_v1,
    store_status_v1, DirectorySafetyReasonV1, StoreDirectoryV1, StoreErrorV1,
    StoreMetadataReasonV1, StoreResultV1, StoreRootV1, StoreStatusV1,
};
use malm_engine::store_types::{
    InitializeStoreOutcome, StateDirectory, StoreAccess, StoreStatus,
};

const EVIDENCE: &[u8] = br#"42 1 8:1 /backing/malm /state/malm rw - ext4 /dev/root rw
43 1 8:1 /backing/malm/private /aliases/final rw - ext4 /dev/root rw
44 1 8:1 /backing/other /state/other rw - ext4 /dev/root rw
45 1 8:1 /backing/other/private /aliases/other rw - ext4 /dev/root rw
46 1 8:1 /backing /aliases/ancestor rw - ext4 /dev/root rw
47 1 8:1 /unrelated /aliases/unrelated rw - ext4 /dev/root rw
48 1 0:9 /backing/malm/private /aliases/other-device rw - tmpfs tmpfs rw
"#;

#[test]
fn parsed_mount_evidence_detects_descendant_aliases() {
    assert!(
        mount_alias_from_evidence(42, b"/state/malm", 43, b"/aliases/final", EVIDENCE).unwrap()
    );
    assert!(
        mount_alias_from_evidence(44, b"/state/other", 45, b"/aliases/other", EVIDENCE).unwrap()
    );
}

#[test]
fn parsed_mount_evidence_supports_symmetric_overlap_without_false_aliases() {
    assert!(
        !mount_alias_from_evidence(42, b"/state/malm", 46, b"/aliases/ancestor", EVIDENCE).unwrap()
    );
    assert!(
        mount_alias_from_evidence(46, b"/aliases/ancestor", 42, b"/state/malm", EVIDENCE).unwrap()
    );
    assert!(
        !mount_alias_from_evidence(42, b"/state/malm", 47, b"/aliases/unrelated", EVIDENCE)
            .unwrap()
    );
    assert!(
        !mount_alias_from_evidence(42, b"/state/malm", 48, b"/aliases/other-device", EVIDENCE)
            .unwrap()
    );
}

#[test]
fn incomplete_or_malformed_mount_evidence_fails_closed() {
    assert!(
        mount_alias_from_evidence(42, b"/state/malm", 99, b"/aliases/missing", EVIDENCE).is_err()
    );

    let malformed = br#"42 1 8:1 /backing/malm /state/malm rw - ext4 /dev/root rw
43 1 8:1 /backing/malm/invalid\09x /aliases/final rw - ext4 /dev/root rw
"#;
    assert!(
        mount_alias_from_evidence(42, b"/state/malm", 43, b"/aliases/final", malformed).is_err()
    );
}

#[test]
fn mount_paths_are_unescaped() {
    assert_eq!(decode_mount_path(br"/a\040b\134c").unwrap(), b"/a b\\c");
    assert!(decode_mount_path(br"/a\08").is_err());
    assert_eq!(accept_mount_table(b"x".to_vec()).unwrap(), b"x");
}

#[test]
fn locators_are_always_relative_to_the_root_pack() {
    let root = b"/work/root";
    assert_eq!(resolve_locator(root, b"packs/leaf"), b"/work/root/packs/leaf");
    assert_eq!(resolve_locator(root, b"../shared"), b"/work/shared");
    assert_eq!(resolve_locator(root, b"."), root);
}

fn configured(root: &[u8]) -> Result<EngineConfig, EngineConfigError> {
    let rejection = if state_root_is_usable(root) { None } else { Some("rejected".to_owned()) };
    EngineConfig::new(root.to_vec(), StoreAccess::ReadOnly, rejection)
}

#[test]
fn injected_root_parent_aliases_are_rejected() {
    assert!(matches!(
        configured(b"/tmp/state/other/../malm"),
        Err(EngineConfigError::InvalidStateRoot(words)) if words == "rejected"
    ));
}

#[test]
fn engine_uses_the_injected_root_contract_without_a_leaf_alias() {
    assert!(configured(b"/tmp/state/final-root").is_ok());
    for root in ["relative", "/", "/tmp/state/./root", "/tmp/state/root/"] {
        assert!(matches!(
            configured(root.as_bytes()),
            Err(EngineConfigError::InvalidStateRoot(_))
        ));
    }
}

#[test]
fn target_authorities_stay_out_of_the_state_root() {
    let config = EngineConfig::new(b"/tmp/state/root".to_vec(), StoreAccess::ReadWrite, None).unwrap();
    assert_eq!(config.state_root(), b"/tmp/state/root");
    assert_eq!(config.state_parent(), b"/tmp/state");
    assert_eq!(config.state_leaf(), b"root");
    let config = config
        .with_target_authority("home".to_owned(), b"/home/./user/../user".to_vec())
        .unwrap();
    assert_eq!(config.target_root("home"), Some(&b"/home/user"[..]));
    assert_eq!(config.target_root("other"), None);
    assert!(matches!(
        config.with_target_authority("home".to_owned(), b"/home/other".to_vec()),
        Err(EngineConfigError::DuplicateTargetAuthority(_))
    ));
    let config = EngineConfig::new(b"/tmp/state/root".to_vec(), StoreAccess::ReadWrite, None).unwrap();
    assert!(matches!(
        config.with_target_authority("inside".to_owned(), b"/tmp/state/root/below".to_vec()),
        Err(EngineConfigError::TargetOverlapsState { .. })
    ));
    let config = EngineConfig::new(b"/tmp/state/root".to_vec(), StoreAccess::ReadWrite, None).unwrap();
    assert!(matches!(
        config.with_target_authority("relative".to_owned(), b"home".to_vec()),
        Err(EngineConfigError::InvalidTargetRoot { .. })
    ));
}

#[test]
fn private_store_failures_map_exhaustively_to_stable_dtos() {
    for (status, expected) in [
        (StoreStatus::Absent, StoreStatusV1::Absent),
        (StoreStatus::Uninitialized, StoreStatusV1::Uninitialized),
        (StoreStatus::Ready, StoreStatusV1::Ready),
    ] {
        assert_eq!(store_status_v1(status), expected);
    }
    for (directory, expected) in [
        (StateDirectory::StateParent, StoreDirectoryV1::StateParent),
        (StateDirectory::V1Root, StoreDirectoryV1::V1Root),
    ] {
        assert_eq!(store_directory_v1(directory), expected);
    }
    for (reason, expected) in [
        (
            DirectorySafetyIssue::WrongOwner { expected_uid: 1, actual_uid: 2 },
            DirectorySafetyReasonV1::WrongOwner,
        ),
        (
            DirectorySafetyIssue::GroupOrOtherWritable { mode: 0o777 },
            DirectorySafetyReasonV1::GroupOrOtherWritable,
        ),
        (
            DirectorySafetyIssue::SpecialModeBitsSet { mode: 0o1700 },
            DirectorySafetyReasonV1::SpecialModeBitsSet,
        ),
        (
            DirectorySafetyIssue::UnexpectedMode { expected: 0o700, actual: 0o755 },
            DirectorySafetyReasonV1::UnexpectedMode,
        ),
        (
            DirectorySafetyIssue::AncestryLimitExceeded { limit: 64 },
            DirectorySafetyReasonV1::AncestryLimitExceeded,
        ),
    ] {
        assert_eq!(directory_safety_reason_v1(reason), expected);
    }
    for (reason, expected) in [
        (
            StoreMetadataIssue::MarkerMissingWithOtherEntries,
            StoreMetadataReasonV1::MarkerMissingWithOtherEntries,
        ),
        (StoreMetadataIssue::MarkerNotRegular, StoreMetadataReasonV1::MarkerNotRegular),
        (
            StoreMetadataIssue::MarkerTooLarge { limit: 4_096, actual: 4_097 },
            StoreMetadataReasonV1::MarkerTooLarge,
        ),
        (StoreMetadataIssue::UnexpectedRootEntry, StoreMetadataReasonV1::UnexpectedRootEntry),
        (
            StoreMetadataIssue::InvalidRootEntry { detail: "private metadata detail".to_owned() },
            StoreMetadataReasonV1::InvalidRootEntry,
        ),
        (
            StoreMetadataIssue::WrongOwner { expected_uid: 1, actual_uid: 2 },
            StoreMetadataReasonV1::WrongOwner,
        ),
        (
            StoreMetadataIssue::UnexpectedMode { actual: 0o644 },
            StoreMetadataReasonV1::UnexpectedMode,
        ),
        (StoreMetadataIssue::MultipleLinks { links: 2 }, StoreMetadataReasonV1::MultipleLinks),
        (StoreMetadataIssue::ObservationChanged, StoreMetadataReasonV1::ObservationChanged),
        (
            StoreMetadataIssue::InvalidDescriptor { detail: "private parser detail".to_owned() },
            StoreMetadataReasonV1::InvalidDescriptor,
        ),
    ] {
        assert_eq!(store_metadata_reason_v1(&reason), expected);
    }

    let path = b"/private/not-serialized".to_vec();
    let mappings = [
        (EngineError::ReadOnlyStore, StoreErrorV1::ReadOnlyStore),
        (
            EngineError::StoreNotReady { status: StoreStatus::Absent },
            StoreErrorV1::StoreNotReady { status: StoreStatusV1::Absent },
        ),
        (
            EngineError::StateParentMissing { path: path.clone() },
            StoreErrorV1::StateParentMissing,
        ),
        (
            EngineError::UnsafeDirectory {
                directory: StateDirectory::V1Root,
                path: path.clone(),
                reason: DirectorySafetyIssue::UnexpectedMode { expected: 0o700, actual: 0o755 },
            },
            StoreErrorV1::UnsafeDirectory {
                directory: StoreDirectoryV1::V1Root,
                reason: DirectorySafetyReasonV1::UnexpectedMode,
            },
        ),
        (
            EngineError::RootObservationChanged { path: path.clone() },
            StoreErrorV1::RootObservationChanged { root: StoreRootV1::V1 },
        ),
        (
            EngineError::StateParentObservationChanged { path: path.clone() },
            StoreErrorV1::StateParentObservationChanged,
        ),
        (
            EngineError::MalformedStoreMetadata {
                path: path.clone(),
                reason: StoreMetadataIssue::InvalidDescriptor {
                    detail: "private parser detail".to_owned(),
                },
            },
            StoreErrorV1::MalformedStoreMetadata {
                reason: StoreMetadataReasonV1::InvalidDescriptor,
            },
        ),
        (
            EngineError::UnsupportedStoreVersion { path: path.clone(), expected: 1, found: 2 },
            StoreErrorV1::UnsupportedStoreVersion { expected: 1, found: 2 },
        ),
        (
            EngineError::Io {
                operation: "private operation".to_owned(),
                path: path.clone(),
                detail: "private OS detail".to_owned(),
            },
            StoreErrorV1::Io,
        ),
    ];
    for (private, stable) in mappings {
        assert_eq!(store_error_v1(private), stable);
    }

    assert_eq!(
        store_error_v1(EngineError::StoreNotReady { status: StoreStatus::Ready }),
        StoreErrorV1::Internal
    );
    assert_eq!(
        store_error_v1(EngineError::UnsupportedStoreVersion {
            path: path.clone(),
            expected: 1,
            found: 1,
        }),
        StoreErrorV1::Internal
    );
    assert_eq!(
        store_error_v1(EngineError::PackObject {
            digest: format!("sha256-{}", "0".repeat(64)),
            path: path.clone(),
            reason: PackObjectIssue::Missing,
        }),
        StoreErrorV1::Internal
    );
    assert_eq!(
        store_error_v1(EngineError::PackCapture {
            root: path.clone(),
            path: path.clone(),
            reason: PackCaptureIssue::SourceRootMissing,
        }),
        StoreErrorV1::Internal
    );
    let git_source = GitSource {
        url: "https://example.com/repository".to_owned(),
        commit: format!("sha1-{}", "0".repeat(40)),
        subdir: ".".to_owned(),
    };
    assert_eq!(
        store_error_v1(EngineError::GitAcquisition {
            git_source,
            scratch_root: path,
            reason: GitAcquisitionIssue::ScratchRootMissing,
        }),
        StoreErrorV1::Internal
    );
}

#[test]
fn store_requests_are_answered() {
    assert_eq!(
        answer_status(Ok(StoreStatus::Ready)),
        Ok(StoreResultV1::Status { status: StoreStatusV1::Ready })
    );
    assert_eq!(
        answer_initialization(Ok(InitializeStoreOutcome::ready())),
        Ok(StoreResultV1::Initialized)
    );
    assert_eq!(
        answer_initialization(Err(EngineError::ReadOnlyStore)),
        Err(StoreErrorV1::ReadOnlyStore)
    );
    let private = EngineError::StateParentMissing { path: b"/private".to_vec() };
    assert_eq!(answer_status(Err(private)), Err(StoreErrorV1::StateParentMissing));
}
