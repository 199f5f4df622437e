//! Progress and diagnostics of engine operations.

use vstd::prelude::*;

use crate::error::{
    ArchivePublicationError, EngineError, GraphAcquisitionError, LockOperationError,
};
use crate::prepare_error::{StaticDeploymentPrepareError, StaticPrepareError};

verus! {

/// Correlates progress and diagnostics from one engine operation.
#[derive(Clone, Copy, Debug, Eq, Hash, Ord, PartialEq, PartialOrd, Structural)]
pub struct OperationId(u64);

impl OperationId {
    /// The engine-local number.
    pub closed spec fn number(self) -> u64 {
        self.0
    }

    /// Wraps an engine-local number.
    pub fn new(value: u64) -> (id: OperationId)
        ensures
            id.number() == value,
    {
        OperationId(value)
    }

    /// Returns the engine-local number.
    pub fn get(self) -> (value: u64)
        ensures
            value == self.number(),
    {
        self.0
    }
}

/// Two operations have the same identifier exactly where they have the same number.
pub proof fn lemma_operation_id_is_its_number(left: OperationId, right: OperationId)
    ensures
        (left == right) == (left.number() == right.number()),
{
}

/// A public engine operation that can emit progress or diagnostics.
#[derive(Clone, Copy, Debug, Eq, PartialEq, Structural)]
#[non_exhaustive]
pub enum EngineOperation {
    StoreStatus,
    InitializeStore,
    PublishFileObjectV1,
    PublishSymlinkObjectV1,
    PublishTreeObjectV1,
    LoadFileObjectV1,
    LoadSymlinkObjectV1,
    LoadTreeObjectV1,
    DecodeAndPublishArchiveV1,
    PublishPackObjectV1,
    CaptureLocalPackV1,
    AcquireGitPackV1,
    AcquireLocalGraphV1,
    AcquireGraphV1,
    CreateLockV1,
    UpdateLockV1,
    LoadPackObjectV1,
    AssembleCachedGraphV1,
    PrepareV1,
    InspectPlanV1,
    InspectPlanIndexV1,
    InspectArtifactMetadataV1,
    InspectCapturedInputsV1,
    InspectTransformProvenanceV1,
    LoadArtifactV1,
    PrepareStaticProfileV1,
    PrepareStaticDeploymentV1,
    PrepareTrackedRootV1,
    UpdateTrackedRootV1,
    PrepareProfileSwitchV1,
    PrepareCheckoutV1,
    PrepareDisableV1,
    PrepareEnableV1,
    PrepareNamespaceRemovalV1,
    PrepareRetentionAuthorityV1,
    CommitV1,
    RecoverV1,
    InspectStateV1,
    InspectCatalogV1,
    InspectNamespaceV1,
    InspectNamespaceHistoryV1,
    InspectGenerationInventoryV1,
    InspectGenerationV1,
    InspectDesiredSnapshotV1,
    InspectCanonicalTreeV1,
    InspectObjectInventoryV1,
    InspectRetentionV1,
    InspectTrackingV1,
    FsckV1,
    InspectNamespaceStatusV1,
    PruneV1,
}

/// The stable identifier of an operation.
pub open spec fn operation_name(operation: EngineOperation) -> Seq<char> {
    match operation {
        EngineOperation::StoreStatus => "store_status"@,
        EngineOperation::InitializeStore => "initialize_store"@,
        EngineOperation::PublishFileObjectV1 => "publish_file_object_v1"@,
        EngineOperation::PublishSymlinkObjectV1 => "publish_symlink_object_v1"@,
        EngineOperation::PublishTreeObjectV1 => "publish_tree_object_v1"@,
        EngineOperation::LoadFileObjectV1 => "load_file_object_v1"@,
        EngineOperation::LoadSymlinkObjectV1 => "load_symlink_object_v1"@,
        EngineOperation::LoadTreeObjectV1 => "load_tree_object_v1"@,
        EngineOperation::DecodeAndPublishArchiveV1 => "decode_and_publish_archive_v1"@,
        EngineOperation::PublishPackObjectV1 => "publish_pack_object_v1"@,
        EngineOperation::CaptureLocalPackV1 => "capture_local_pack_v1"@,
        EngineOperation::AcquireGitPackV1 => "acquire_git_pack_v1"@,
        EngineOperation::AcquireLocalGraphV1 => "acquire_local_graph_v1"@,
        EngineOperation::AcquireGraphV1 => "acquire_graph_v1"@,
        EngineOperation::CreateLockV1 => "create_lock_v1"@,
        EngineOperation::UpdateLockV1 => "update_lock_v1"@,
        EngineOperation::LoadPackObjectV1 => "load_pack_object_v1"@,
        EngineOperation::AssembleCachedGraphV1 => "assemble_cached_graph_v1"@,
        EngineOperation::PrepareV1 => "prepare_v1"@,
        EngineOperation::InspectPlanV1 => "inspect_plan_v1"@,
        EngineOperation::InspectPlanIndexV1 => "inspect_plan_index_v1"@,
        EngineOperation::InspectArtifactMetadataV1 => "inspect_artifact_metadata_v1"@,
        EngineOperation::InspectCapturedInputsV1 => "inspect_captured_inputs_v1"@,
        EngineOperation::InspectTransformProvenanceV1 => "inspect_transform_provenance_v1"@,
        EngineOperation::LoadArtifactV1 => "load_artifact_v1"@,
        EngineOperation::PrepareStaticProfileV1 => "prepare_static_profile_v1"@,
        EngineOperation::PrepareStaticDeploymentV1 => "prepare_static_deployment_v1"@,
        EngineOperation::PrepareTrackedRootV1 => "prepare_tracked_root_v1"@,
        EngineOperation::UpdateTrackedRootV1 => "update_tracked_root_v1"@,
        EngineOperation::PrepareProfileSwitchV1 => "prepare_profile_switch_v1"@,
        EngineOperation::PrepareCheckoutV1 => "prepare_checkout_v1"@,
        EngineOperation::PrepareDisableV1 => "prepare_disable_v1"@,
        EngineOperation::PrepareEnableV1 => "prepare_enable_v1"@,
        EngineOperation::PrepareNamespaceRemovalV1 => "prepare_namespace_removal_v1"@,
        EngineOperation::PrepareRetentionAuthorityV1 => "prepare_retention_authority_v1"@,
        EngineOperation::CommitV1 => "commit_v1"@,
        EngineOperation::RecoverV1 => "recover_v1"@,
        EngineOperation::InspectStateV1 => "inspect_state_v1"@,
        EngineOperation::InspectCatalogV1 => "inspect_catalog_v1"@,
        EngineOperation::InspectNamespaceV1 => "inspect_namespace_v1"@,
        EngineOperation::InspectNamespaceHistoryV1 => "inspect_namespace_history_v1"@,
        EngineOperation::InspectGenerationInventoryV1 => "inspect_generation_inventory_v1"@,
        EngineOperation::InspectGenerationV1 => "inspect_generation_v1"@,
        EngineOperation::InspectDesiredSnapshotV1 => "inspect_desired_snapshot_v1"@,
        EngineOperation::InspectCanonicalTreeV1 => "inspect_canonical_tree_v1"@,
        EngineOperation::InspectObjectInventoryV1 => "inspect_object_inventory_v1"@,
        EngineOperation::InspectRetentionV1 => "inspect_retention_v1"@,
        EngineOperation::InspectTrackingV1 => "inspect_tracking_v1"@,
        EngineOperation::FsckV1 => "fsck_v1"@,
        EngineOperation::InspectNamespaceStatusV1 => "inspect_namespace_status_v1"@,
        EngineOperation::PruneV1 => "prune_v1"@,
    }
}

/// The place of an operation in the inventory.
pub open spec fn operation_index(operation: EngineOperation) -> int {
    match operation {
        EngineOperation::StoreStatus => 0,
        EngineOperation::InitializeStore => 1,
        EngineOperation::PublishFileObjectV1 => 2,
        EngineOperation::PublishSymlinkObjectV1 => 3,
        EngineOperation::PublishTreeObjectV1 => 4,
        EngineOperation::LoadFileObjectV1 => 5,
        EngineOperation::LoadSymlinkObjectV1 => 6,
        EngineOperation::LoadTreeObjectV1 => 7,
        EngineOperation::DecodeAndPublishArchiveV1 => 8,
        EngineOperation::PublishPackObjectV1 => 9,
        EngineOperation::CaptureLocalPackV1 => 10,
        EngineOperation::AcquireGitPackV1 => 11,
        EngineOperation::AcquireLocalGraphV1 => 12,
        EngineOperation::AcquireGraphV1 => 13,
        EngineOperation::CreateLockV1 => 14,
        EngineOperation::UpdateLockV1 => 15,
        EngineOperation::LoadPackObjectV1 => 16,
        EngineOperation::AssembleCachedGraphV1 => 17,
        EngineOperation::PrepareV1 => 18,
        EngineOperation::InspectPlanV1 => 19,
        EngineOperation::InspectPlanIndexV1 => 20,
        EngineOperation::InspectArtifactMetadataV1 => 21,
        EngineOperation::InspectCapturedInputsV1 => 22,
        EngineOperation::InspectTransformProvenanceV1 => 23,
        EngineOperation::LoadArtifactV1 => 24,
        EngineOperation::PrepareStaticProfileV1 => 25,
        EngineOperation::PrepareStaticDeploymentV1 => 26,
        EngineOperation::PrepareTrackedRootV1 => 27,
        EngineOperation::UpdateTrackedRootV1 => 28,
        EngineOperation::PrepareProfileSwitchV1 => 29,
        EngineOperation::PrepareCheckoutV1 => 30,
        EngineOperation::PrepareDisableV1 => 31,
        EngineOperation::PrepareEnableV1 => 32,
        EngineOperation::PrepareNamespaceRemovalV1 => 33,
        EngineOperation::PrepareRetentionAuthorityV1 => 34,
        EngineOperation::CommitV1 => 35,
        EngineOperation::RecoverV1 => 36,
        EngineOperation::InspectStateV1 => 37,
        EngineOperation::InspectCatalogV1 => 38,
        EngineOperation::InspectNamespaceV1 => 39,
        EngineOperation::InspectNamespaceHistoryV1 => 40,
        EngineOperation::InspectGenerationInventoryV1 => 41,
        EngineOperation::InspectGenerationV1 => 42,
        EngineOperation::InspectDesiredSnapshotV1 => 43,
        EngineOperation::InspectCanonicalTreeV1 => 44,
        EngineOperation::InspectObjectInventoryV1 => 45,
        EngineOperation::InspectRetentionV1 => 46,
        EngineOperation::InspectTrackingV1 => 47,
        EngineOperation::FsckV1 => 48,
        EngineOperation::InspectNamespaceStatusV1 => 49,
        EngineOperation::PruneV1 => 50,
    }
}

impl EngineOperation {
    /// Returns every public engine operation in stable inventory order.
    pub fn all() -> (operations: Vec<EngineOperation>)
        ensures
            operations@.len() == 51,
            forall|operation: EngineOperation|
                0 <= #[trigger] operation_index(operation) < operations@.len()
                    && operations@[operation_index(operation)] == operation,
    {
        let mut operations: Vec<EngineOperation> = Vec::new();
        operations.push(EngineOperation::StoreStatus);
        operations.push(EngineOperation::InitializeStore);
        operations.push(EngineOperation::PublishFileObjectV1);
        operations.push(EngineOperation::PublishSymlinkObjectV1);
        operations.push(EngineOperation::PublishTreeObjectV1);
        operations.push(EngineOperation::LoadFileObjectV1);
        operations.push(EngineOperation::LoadSymlinkObjectV1);
        operations.push(EngineOperation::LoadTreeObjectV1);
        operations.push(EngineOperation::DecodeAndPublishArchiveV1);
        operations.push(EngineOperation::PublishPackObjectV1);
        operations.push(EngineOperation::CaptureLocalPackV1);
        operations.push(EngineOperation::AcquireGitPackV1);
        operations.push(EngineOperation::AcquireLocalGraphV1);
        operations.push(EngineOperation::AcquireGraphV1);
        operations.push(EngineOperation::CreateLockV1);
        operations.push(EngineOperation::UpdateLockV1);
        operations.push(EngineOperation::LoadPackObjectV1);
        operations.push(EngineOperation::AssembleCachedGraphV1);
        operations.push(EngineOperation::PrepareV1);
        operations.push(EngineOperation::InspectPlanV1);
        operations.push(EngineOperation::InspectPlanIndexV1);
        operations.push(EngineOperation::InspectArtifactMetadataV1);
        operations.push(EngineOperation::InspectCapturedInputsV1);
        operations.push(EngineOperation::InspectTransformProvenanceV1);
        operations.push(EngineOperation::LoadArtifactV1);
        operations.push(EngineOperation::PrepareStaticProfileV1);
        operations.push(EngineOperation::PrepareStaticDeploymentV1);
        operations.push(EngineOperation::PrepareTrackedRootV1);
        operations.push(EngineOperation::UpdateTrackedRootV1);
        operations.push(EngineOperation::PrepareProfileSwitchV1);
        operations.push(EngineOperation::PrepareCheckoutV1);
        operations.push(EngineOperation::PrepareDisableV1);
        operations.push(EngineOperation::PrepareEnableV1);
        operations.push(EngineOperation::PrepareNamespaceRemovalV1);
        operations.push(EngineOperation::PrepareRetentionAuthorityV1);
        operations.push(EngineOperation::CommitV1);
        operations.push(EngineOperation::RecoverV1);
        operations.push(EngineOperation::InspectStateV1);
        operations.push(EngineOperation::InspectCatalogV1);
        operations.push(EngineOperation::InspectNamespaceV1);
        operations.push(EngineOperation::InspectNamespaceHistoryV1);
        operations.push(EngineOperation::InspectGenerationInventoryV1);
        operations.push(EngineOperation::InspectGenerationV1);
        operations.push(EngineOperation::InspectDesiredSnapshotV1);
        operations.push(EngineOperation::InspectCanonicalTreeV1);
        operations.push(EngineOperation::InspectObjectInventoryV1);
        operations.push(EngineOperation::InspectRetentionV1);
        operations.push(EngineOperation::InspectTrackingV1);
        operations.push(EngineOperation::FsckV1);
        operations.push(EngineOperation::InspectNamespaceStatusV1);
        operations.push(EngineOperation::PruneV1);
        operations
    }

    /// Returns the stable identifier used by operation inventories and adapters.
    pub fn as_str(self) -> (name: &'static str)
        ensures
            name@ == operation_name(self),
    {
        match self {
            EngineOperation::StoreStatus => "store_status",
            EngineOperation::InitializeStore => "initialize_store",
            EngineOperation::PublishFileObjectV1 => "publish_file_object_v1",
            EngineOperation::PublishSymlinkObjectV1 => "publish_symlink_object_v1",
            EngineOperation::PublishTreeObjectV1 => "publish_tree_object_v1",
            EngineOperation::LoadFileObjectV1 => "load_file_object_v1",
            EngineOperation::LoadSymlinkObjectV1 => "load_symlink_object_v1",
            EngineOperation::LoadTreeObjectV1 => "load_tree_object_v1",
            EngineOperation::DecodeAndPublishArchiveV1 => "decode_and_publish_archive_v1",
            EngineOperation::PublishPackObjectV1 => "publish_pack_object_v1",
            EngineOperation::CaptureLocalPackV1 => "capture_local_pack_v1",
            EngineOperation::AcquireGitPackV1 => "acquire_git_pack_v1",
            EngineOperation::AcquireLocalGraphV1 => "acquire_local_graph_v1",
            EngineOperation::AcquireGraphV1 => "acquire_graph_v1",
            EngineOperation::CreateLockV1 => "create_lock_v1",
            EngineOperation::UpdateLockV1 => "update_lock_v1",
            EngineOperation::LoadPackObjectV1 => "load_pack_object_v1",
            EngineOperation::AssembleCachedGraphV1 => "assemble_cached_graph_v1",
            EngineOperation::PrepareV1 => "prepare_v1",
            EngineOperation::InspectPlanV1 => "inspect_plan_v1",
            EngineOperation::InspectPlanIndexV1 => "inspect_plan_index_v1",
            EngineOperation::InspectArtifactMetadataV1 => "inspect_artifact_metadata_v1",
            EngineOperation::InspectCapturedInputsV1 => "inspect_captured_inputs_v1",
            EngineOperation::InspectTransformProvenanceV1 => "inspect_transform_provenance_v1",
            EngineOperation::LoadArtifactV1 => "load_artifact_v1",
            EngineOperation::PrepareStaticProfileV1 => "prepare_static_profile_v1",
            EngineOperation::PrepareStaticDeploymentV1 => "prepare_static_deployment_v1",
            EngineOperation::PrepareTrackedRootV1 => "prepare_tracked_root_v1",
            EngineOperation::UpdateTrackedRootV1 => "update_tracked_root_v1",
            EngineOperation::PrepareProfileSwitchV1 => "prepare_profile_switch_v1",
            EngineOperation::PrepareCheckoutV1 => "prepare_checkout_v1",
            EngineOperation::PrepareDisableV1 => "prepare_disable_v1",
            EngineOperation::PrepareEnableV1 => "prepare_enable_v1",
            EngineOperation::PrepareNamespaceRemovalV1 => "prepare_namespace_removal_v1",
            EngineOperation::PrepareRetentionAuthorityV1 => "prepare_retention_authority_v1",
            EngineOperation::CommitV1 => "commit_v1",
            EngineOperation::RecoverV1 => "recover_v1",
            EngineOperation::InspectStateV1 => "inspect_state_v1",
            EngineOperation::InspectCatalogV1 => "inspect_catalog_v1",
            EngineOperation::InspectNamespaceV1 => "inspect_namespace_v1",
            EngineOperation::InspectNamespaceHistoryV1 => "inspect_namespace_history_v1",
            EngineOperation::InspectGenerationInventoryV1 => "inspect_generation_inventory_v1",
            EngineOperation::InspectGenerationV1 => "inspect_generation_v1",
            EngineOperation::InspectDesiredSnapshotV1 => "inspect_desired_snapshot_v1",
            EngineOperation::InspectCanonicalTreeV1 => "inspect_canonical_tree_v1",
            EngineOperation::InspectObjectInventoryV1 => "inspect_object_inventory_v1",
            EngineOperation::InspectRetentionV1 => "inspect_retention_v1",
            EngineOperation::InspectTrackingV1 => "inspect_tracking_v1",
            EngineOperation::FsckV1 => "fsck_v1",
            EngineOperation::InspectNamespaceStatusV1 => "inspect_namespace_status_v1",
            EngineOperation::PruneV1 => "prune_v1",
        }
    }
}

/// The length of an identifier and its characters at a few places tell it from the others.
spec fn name_mark(name: Seq<char>) -> (int, int, int, int) {
    (
        name.len() as int,
        if name.len() > 0 {
            name[0] as int
        } else {
            0
        },
        if name.len() > 5 {
            name[5] as int
        } else {
            0
        },
        if name.len() > 8 {
            name[8] as int
        } else {
            0
        },
    )
}

spec fn operation_mark(operation: EngineOperation) -> (int, int, int, int) {
    match operation {
        EngineOperation::StoreStatus => (12, 115, 95, 97),
        EngineOperation::InitializeStore => (16, 105, 97, 122),
        EngineOperation::PublishFileObjectV1 => (22, 112, 115, 102),
        EngineOperation::PublishSymlinkObjectV1 => (25, 112, 115, 115),
        EngineOperation::PublishTreeObjectV1 => (22, 112, 115, 116),
        EngineOperation::LoadFileObjectV1 => (19, 108, 102, 101),
        EngineOperation::LoadSymlinkObjectV1 => (22, 108, 115, 108),
        EngineOperation::LoadTreeObjectV1 => (19, 108, 116, 101),
        EngineOperation::DecodeAndPublishArchiveV1 => (29, 100, 101, 110),
        EngineOperation::PublishPackObjectV1 => (22, 112, 115, 112),
        EngineOperation::CaptureLocalPackV1 => (21, 99, 114, 108),
        EngineOperation::AcquireGitPackV1 => (19, 97, 114, 103),
        EngineOperation::AcquireLocalGraphV1 => (22, 97, 114, 108),
        EngineOperation::AcquireGraphV1 => (16, 97, 114, 103),
        EngineOperation::CreateLockV1 => (14, 99, 101, 111),
        EngineOperation::UpdateLockV1 => (14, 117, 101, 111),
        EngineOperation::LoadPackObjectV1 => (19, 108, 112, 107),
        EngineOperation::AssembleCachedGraphV1 => (24, 97, 98, 95),
        EngineOperation::PrepareV1 => (10, 112, 114, 118),
        EngineOperation::InspectPlanV1 => (15, 105, 99, 112),
        EngineOperation::InspectPlanIndexV1 => (21, 105, 99, 112),
        EngineOperation::InspectArtifactMetadataV1 => (28, 105, 99, 97),
        EngineOperation::InspectCapturedInputsV1 => (26, 105, 99, 99),
        EngineOperation::InspectTransformProvenanceV1 => (31, 105, 99, 116),
        EngineOperation::LoadArtifactV1 => (16, 108, 97, 105),
        EngineOperation::PrepareStaticProfileV1 => (25, 112, 114, 115),
        EngineOperation::PrepareStaticDeploymentV1 => (28, 112, 114, 115),
        EngineOperation::PrepareTrackedRootV1 => (23, 112, 114, 116),
        EngineOperation::UpdateTrackedRootV1 => (22, 117, 101, 114),
        EngineOperation::PrepareProfileSwitchV1 => (25, 112, 114, 112),
        EngineOperation::PrepareCheckoutV1 => (19, 112, 114, 99),
        EngineOperation::PrepareDisableV1 => (18, 112, 114, 100),
        EngineOperation::PrepareEnableV1 => (17, 112, 114, 101),
        EngineOperation::PrepareNamespaceRemovalV1 => (28, 112, 114, 110),
        EngineOperation::PrepareRetentionAuthorityV1 => (30, 112, 114, 114),
        EngineOperation::CommitV1 => (9, 99, 116, 49),
        EngineOperation::RecoverV1 => (10, 114, 101, 118),
        EngineOperation::InspectStateV1 => (16, 105, 99, 115),
        EngineOperation::InspectCatalogV1 => (18, 105, 99, 99),
        EngineOperation::InspectNamespaceV1 => (20, 105, 99, 110),
        EngineOperation::InspectNamespaceHistoryV1 => (28, 105, 99, 110),
        EngineOperation::InspectGenerationInventoryV1 => (31, 105, 99, 103),
        EngineOperation::InspectGenerationV1 => (21, 105, 99, 103),
        EngineOperation::InspectDesiredSnapshotV1 => (27, 105, 99, 100),
        EngineOperation::InspectCanonicalTreeV1 => (25, 105, 99, 99),
        EngineOperation::InspectObjectInventoryV1 => (27, 105, 99, 111),
        EngineOperation::InspectRetentionV1 => (20, 105, 99, 114),
        EngineOperation::InspectTrackingV1 => (19, 105, 99, 116),
        EngineOperation::FsckV1 => (7, 102, 118, 0),
        EngineOperation::InspectNamespaceStatusV1 => (27, 105, 99, 110),
        EngineOperation::PruneV1 => (8, 112, 95, 0),
    }
}

#[verifier::spinoff_prover]
proof fn lemma_operation_mark(operation: EngineOperation)
    ensures
        name_mark(operation_name(operation)) == operation_mark(operation),
{
    match operation {
        EngineOperation::StoreStatus => {
            reveal_strlit("store_status");
        },
        EngineOperation::InitializeStore => {
            reveal_strlit("initialize_store");
        },
        EngineOperation::PublishFileObjectV1 => {
            reveal_strlit("publish_file_object_v1");
        },
        EngineOperation::PublishSymlinkObjectV1 => {
            reveal_strlit("publish_symlink_object_v1");
        },
        EngineOperation::PublishTreeObjectV1 => {
            reveal_strlit("publish_tree_object_v1");
        },
        EngineOperation::LoadFileObjectV1 => {
            reveal_strlit("load_file_object_v1");
        },
        EngineOperation::LoadSymlinkObjectV1 => {
            reveal_strlit("load_symlink_object_v1");
        },
        EngineOperation::LoadTreeObjectV1 => {
            reveal_strlit("load_tree_object_v1");
        },
        EngineOperation::DecodeAndPublishArchiveV1 => {
            reveal_strlit("decode_and_publish_archive_v1");
        },
        EngineOperation::PublishPackObjectV1 => {
            reveal_strlit("publish_pack_object_v1");
        },
        EngineOperation::CaptureLocalPackV1 => {
            reveal_strlit("capture_local_pack_v1");
        },
        EngineOperation::AcquireGitPackV1 => {
            reveal_strlit("acquire_git_pack_v1");
        },
        EngineOperation::AcquireLocalGraphV1 => {
            reveal_strlit("acquire_local_graph_v1");
        },
        EngineOperation::AcquireGraphV1 => {
            reveal_strlit("acquire_graph_v1");
        },
        EngineOperation::CreateLockV1 => {
            reveal_strlit("create_lock_v1");
        },
        EngineOperation::UpdateLockV1 => {
            reveal_strlit("update_lock_v1");
        },
        EngineOperation::LoadPackObjectV1 => {
            reveal_strlit("load_pack_object_v1");
        },
        EngineOperation::AssembleCachedGraphV1 => {
            reveal_strlit("assemble_cached_graph_v1");
        },
        EngineOperation::PrepareV1 => {
            reveal_strlit("prepare_v1");
        },
        EngineOperation::InspectPlanV1 => {
            reveal_strlit("inspect_plan_v1");
        },
        EngineOperation::InspectPlanIndexV1 => {
            reveal_strlit("inspect_plan_index_v1");
        },
        EngineOperation::InspectArtifactMetadataV1 => {
            reveal_strlit("inspect_artifact_metadata_v1");
        },
        EngineOperation::InspectCapturedInputsV1 => {
            reveal_strlit("inspect_captured_inputs_v1");
        },
        EngineOperation::InspectTransformProvenanceV1 => {
            reveal_strlit("inspect_transform_provenance_v1");
        },
        EngineOperation::LoadArtifactV1 => {
            reveal_strlit("load_artifact_v1");
        },
        EngineOperation::PrepareStaticProfileV1 => {
            reveal_strlit("prepare_static_profile_v1");
        },
        EngineOperation::PrepareStaticDeploymentV1 => {
            reveal_strlit("prepare_static_deployment_v1");
        },
        EngineOperation::PrepareTrackedRootV1 => {
            reveal_strlit("prepare_tracked_root_v1");
        },
        EngineOperation::UpdateTrackedRootV1 => {
            reveal_strlit("update_tracked_root_v1");
        },
        EngineOperation::PrepareProfileSwitchV1 => {
            reveal_strlit("prepare_profile_switch_v1");
        },
        EngineOperation::PrepareCheckoutV1 => {
            reveal_strlit("prepare_checkout_v1");
        },
        EngineOperation::PrepareDisableV1 => {
            reveal_strlit("prepare_disable_v1");
        },
        EngineOperation::PrepareEnableV1 => {
            reveal_strlit("prepare_enable_v1");
        },
        EngineOperation::PrepareNamespaceRemovalV1 => {
            reveal_strlit("prepare_namespace_removal_v1");
        },
        EngineOperation::PrepareRetentionAuthorityV1 => {
            reveal_strlit("prepare_retention_authority_v1");
        },
        EngineOperation::CommitV1 => {
            reveal_strlit("commit_v1");
        },
        EngineOperation::RecoverV1 => {
            reveal_strlit("recover_v1");
        },
        EngineOperation::InspectStateV1 => {
            reveal_strlit("inspect_state_v1");
        },
        EngineOperation::InspectCatalogV1 => {
            reveal_strlit("inspect_catalog_v1");
        },
        EngineOperation::InspectNamespaceV1 => {
            reveal_strlit("inspect_namespace_v1");
        },
        EngineOperation::InspectNamespaceHistoryV1 => {
            reveal_strlit("inspect_namespace_history_v1");
        },
        EngineOperation::InspectGenerationInventoryV1 => {
            reveal_strlit("inspect_generation_inventory_v1");
        },
        EngineOperation::InspectGenerationV1 => {
            reveal_strlit("inspect_generation_v1");
        },
        EngineOperation::InspectDesiredSnapshotV1 => {
            reveal_strlit("inspect_desired_snapshot_v1");
        },
        EngineOperation::InspectCanonicalTreeV1 => {
            reveal_strlit("inspect_canonical_tree_v1");
        },
        EngineOperation::InspectObjectInventoryV1 => {
            reveal_strlit("inspect_object_inventory_v1");
        },
        EngineOperation::InspectRetentionV1 => {
            reveal_strlit("inspect_retention_v1");
        },
        EngineOperation::InspectTrackingV1 => {
            reveal_strlit("inspect_tracking_v1");
        },
        EngineOperation::FsckV1 => {
            reveal_strlit("fsck_v1");
        },
        EngineOperation::InspectNamespaceStatusV1 => {
            reveal_strlit("inspect_namespace_status_v1");
        },
        EngineOperation::PruneV1 => {
            reveal_strlit("prune_v1");
        },
    }
}

/// No two operations share an identifier.
pub proof fn lemma_operation_names_are_distinct(left: EngineOperation, right: EngineOperation)
    ensures
        operation_name(left) == operation_name(right) ==> left == right,
{
    lemma_operation_mark(left);
    lemma_operation_mark(right);
}

/// Final status of an observed engine operation.
#[derive(Clone, Copy, Debug, Eq, PartialEq, Structural)]
#[non_exhaustive]
pub enum OperationOutcome {
    Succeeded,
    Failed,
}

/// Structured progress of an engine operation.
#[derive(Clone, Copy, Debug, Eq, PartialEq, Structural)]
#[non_exhaustive]
pub enum ProgressEvent {
    OperationStarted { operation_id: OperationId, operation: EngineOperation },
    OperationFinished {
        operation_id: OperationId,
        operation: EngineOperation,
        outcome: OperationOutcome,
    },
}

/// Receives typed progress without controlling engine outcomes.
pub trait ProgressSink: Send + Sync + 'static {
    /// Called on the thread that executes the operation.
    fn emit(&self, event: ProgressEvent);
}

/// Takes progress and does nothing with it.
#[derive(Debug)]
pub struct NoopProgressSink;

impl ProgressSink for NoopProgressSink {
    fn emit(&self, _event: ProgressEvent) {
    }
}

/// Numbers the operations of one engine.
#[derive(Debug)]
pub struct OperationCounter {
    next: u64,
}

impl OperationCounter {
    /// The number that the next operation gets.
    pub closed spec fn upcoming(&self) -> u64 {
        self.next
    }

    /// Starts counting.
    pub fn new(first: u64) -> (counter: OperationCounter)
        ensures
            counter.upcoming() == first,
    {
        OperationCounter { next: first }
    }

    /// Starts counting the operations of an engine, at one.
    pub fn of_engine() -> (counter: OperationCounter)
        ensures
            counter.upcoming() == upcoming_after(0),
    {
        OperationCounter { next: 1 }
    }

    /// Starts an operation: it gets a number of its own and an event that says so.
    pub fn start(&mut self, operation: EngineOperation) -> (started: (OperationId, ProgressEvent))
        ensures
            started.0.number() == old(self).upcoming(),
            started.1 == (ProgressEvent::OperationStarted { operation_id: started.0, operation }),
            final(self).upcoming() == old(self).upcoming().wrapping_add(1),
    {
        let operation_id = OperationId::new(self.next);
        self.next = self.next.wrapping_add(1);
        (operation_id, ProgressEvent::OperationStarted { operation_id, operation })
    }
}

/// The number that an engine gives to the next operation once it started so many.
pub open spec fn upcoming_after(started: nat) -> u64
    decreases started,
{
    if started == 0 {
        1
    } else {
        upcoming_after((started - 1) as nat).wrapping_add(1)
    }
}

/// The operations of an engine are numbered one, two, three and so on, as far as the numbers go.
pub proof fn lemma_operations_are_numbered_in_order(started: nat)
    requires
        started < u64::MAX,
    ensures
        upcoming_after(started) == started + 1,
    decreases started,
{
    if started > 0 {
        lemma_operations_are_numbered_in_order((started - 1) as nat);
    }
}

/// Returns the event that ends an operation.
pub fn finish_operation(
    operation_id: OperationId,
    operation: EngineOperation,
    succeeded: bool,
) -> (event: ProgressEvent)
    ensures
        event == (ProgressEvent::OperationFinished {
            operation_id,
            operation,
            outcome: if succeeded {
                OperationOutcome::Succeeded
            } else {
                OperationOutcome::Failed
            },
        }),
{
    let outcome = if succeeded {
        OperationOutcome::Succeeded
    } else {
        OperationOutcome::Failed
    };
    ProgressEvent::OperationFinished { operation_id, operation, outcome }
}

/// Identifies the structured error family referenced by a diagnostic.
#[derive(Clone, Copy, Debug, Eq, PartialEq, Structural)]
#[non_exhaustive]
pub enum EngineFailureKind {
    Engine,
    ArchivePublication,
    GraphAcquisition,
    GraphAssembly,
    LockOperation,
    StaticPrepare,
    StaticDeploymentPrepare,
    TrackedRoot,
    ProfileSwitch,
    Commit,
}

/// Borrowed structured failure from an engine operation. Families whose errors come from a
/// collaborator carry the collaborator's words.
#[derive(Clone, Copy, Debug)]
#[non_exhaustive]
pub enum EngineFailureRef<'a> {
    Engine(&'a EngineError),
    ArchivePublication(&'a ArchivePublicationError),
    GraphAcquisition(&'a GraphAcquisitionError),
    GraphAssembly(&'a str),
    LockOperation(&'a LockOperationError),
    StaticPrepare(&'a StaticPrepareError),
    StaticDeploymentPrepare(&'a StaticDeploymentPrepareError),
    TrackedRoot(&'a str),
    ProfileSwitch(&'a str),
    Commit(&'a str),
}

/// The error family of a failure.
pub open spec fn failure_kind(failure: EngineFailureRef) -> EngineFailureKind {
    match failure {
        EngineFailureRef::Engine(_) => EngineFailureKind::Engine,
        EngineFailureRef::ArchivePublication(_) => EngineFailureKind::ArchivePublication,
        EngineFailureRef::GraphAcquisition(_) => EngineFailureKind::GraphAcquisition,
        EngineFailureRef::GraphAssembly(_) => EngineFailureKind::GraphAssembly,
        EngineFailureRef::LockOperation(_) => EngineFailureKind::LockOperation,
        EngineFailureRef::StaticPrepare(_) => EngineFailureKind::StaticPrepare,
        EngineFailureRef::StaticDeploymentPrepare(_) => EngineFailureKind::StaticDeploymentPrepare,
        EngineFailureRef::TrackedRoot(_) => EngineFailureKind::TrackedRoot,
        EngineFailureRef::ProfileSwitch(_) => EngineFailureKind::ProfileSwitch,
        EngineFailureRef::Commit(_) => EngineFailureKind::Commit,
    }
}

impl EngineFailureRef<'_> {
    /// Returns the stable error family for this diagnostic.
    pub fn kind(self) -> (kind: EngineFailureKind)
        ensures
            kind == failure_kind(self),
    {
        match self {
            EngineFailureRef::Engine(_) => EngineFailureKind::Engine,
            EngineFailureRef::ArchivePublication(_) => EngineFailureKind::ArchivePublication,
            EngineFailureRef::GraphAcquisition(_) => EngineFailureKind::GraphAcquisition,
            EngineFailureRef::GraphAssembly(_) => EngineFailureKind::GraphAssembly,
            EngineFailureRef::LockOperation(_) => EngineFailureKind::LockOperation,
            EngineFailureRef::StaticPrepare(_) => EngineFailureKind::StaticPrepare,
            EngineFailureRef::StaticDeploymentPrepare(_) => EngineFailureKind::StaticDeploymentPrepare,
            EngineFailureRef::TrackedRoot(_) => EngineFailureKind::TrackedRoot,
            EngineFailureRef::ProfileSwitch(_) => EngineFailureKind::ProfileSwitch,
            EngineFailureRef::Commit(_) => EngineFailureKind::Commit,
        }
    }
}

/// The failure that a diagnostic tells of for an engine error: a commit failure is told as its
/// own family.
pub open spec fn engine_failure_kind(error: EngineError) -> EngineFailureKind {
    if error is Commit {
        EngineFailureKind::Commit
    } else {
        EngineFailureKind::Engine
    }
}

impl EngineError {
    /// Returns this error as the failure of an operation.
    pub fn failure(&self) -> (failure: EngineFailureRef<'_>)
        ensures
            failure_kind(failure) == engine_failure_kind(*self),
            failure matches EngineFailureRef::Engine(error) ==> *error == *self,
            failure matches EngineFailureRef::Commit(words) ==> words@ == self->Commit_detail@,
    {
        match self {
            EngineError::Commit { detail } => EngineFailureRef::Commit(detail.as_str()),
            _ => EngineFailureRef::Engine(self),
        }
    }
}

impl ArchivePublicationError {
    /// Returns this error as the failure of an operation.
    pub fn failure(&self) -> (failure: EngineFailureRef<'_>)
        ensures
            failure == EngineFailureRef::ArchivePublication(self),
    {
        EngineFailureRef::ArchivePublication(self)
    }
}

impl GraphAcquisitionError {
    /// Returns this error as the failure of an operation.
    pub fn failure(&self) -> (failure: EngineFailureRef<'_>)
        ensures
            failure == EngineFailureRef::GraphAcquisition(self),
    {
        EngineFailureRef::GraphAcquisition(self)
    }
}

impl LockOperationError {
    /// Returns this error as the failure of an operation.
    pub fn failure(&self) -> (failure: EngineFailureRef<'_>)
        ensures
            failure == EngineFailureRef::LockOperation(self),
    {
        EngineFailureRef::LockOperation(self)
    }
}

impl StaticPrepareError {
    /// Returns this error as the failure of an operation.
    pub fn failure(&self) -> (failure: EngineFailureRef<'_>)
        ensures
            failure == EngineFailureRef::StaticPrepare(self),
    {
        EngineFailureRef::StaticPrepare(self)
    }
}

impl StaticDeploymentPrepareError {
    /// Returns this error as the failure of an operation.
    pub fn failure(&self) -> (failure: EngineFailureRef<'_>)
        ensures
            failure == EngineFailureRef::StaticDeploymentPrepare(self),
    {
        EngineFailureRef::StaticDeploymentPrepare(self)
    }
}

/// One typed operation failure emitted before the operation finishes.
#[derive(Clone, Copy, Debug)]
pub struct DiagnosticEvent<'a> {
    operation_id: OperationId,
    operation: EngineOperation,
    failure: EngineFailureRef<'a>,
}

impl<'a> DiagnosticEvent<'a> {
    /// The operation, its identifier and its failure.
    pub closed spec fn parts(&self) -> (OperationId, EngineOperation, EngineFailureRef<'a>) {
        (self.operation_id, self.operation, self.failure)
    }

    /// Describes the failure of an operation.
    pub fn new(
        operation_id: OperationId,
        operation: EngineOperation,
        failure: EngineFailureRef<'a>,
    ) -> (event: DiagnosticEvent<'a>)
        ensures
            event.parts() == (operation_id, operation, failure),
    {
        DiagnosticEvent { operation_id, operation, failure }
    }

    /// Returns the identifier of the operation.
    pub fn operation_id(&self) -> (id: OperationId)
        ensures
            id == self.parts().0,
    {
        self.operation_id
    }

    /// Returns the operation.
    pub fn operation(&self) -> (operation: EngineOperation)
        ensures
            operation == self.parts().1,
    {
        self.operation
    }

    /// Returns the failure.
    pub fn failure(&self) -> (failure: EngineFailureRef<'a>)
        ensures
            failure == self.parts().2,
    {
        self.failure
    }
}

/// Returns the events that end an operation: a diagnostic, emitted first, if it failed, and the
/// event that says how it finished.
pub fn close_operation<'a>(
    operation_id: OperationId,
    operation: EngineOperation,
    failure: Option<EngineFailureRef<'a>>,
) -> (events: (Option<DiagnosticEvent<'a>>, ProgressEvent))
    ensures
        match failure {
            Some(cause) => events.0 matches Some(diagnostic) && diagnostic.parts() == (
                operation_id,
                operation,
                cause,
            ),
            None => events.0 is None,
        },
        events.1 == (ProgressEvent::OperationFinished {
            operation_id,
            operation,
            outcome: if failure is None {
                OperationOutcome::Succeeded
            } else {
                OperationOutcome::Failed
            },
        }),
{
    match failure {
        Some(cause) => (
            Some(DiagnosticEvent::new(operation_id, operation, cause)),
            finish_operation(operation_id, operation, false),
        ),
        None => (None, finish_operation(operation_id, operation, true)),
    }
}

/// A step of running an operation that is observed.
#[derive(Clone, Copy, Debug, PartialEq, Eq, Structural)]
pub enum ObserveStep {
    /// Tell that the operation starts.
    Announce,
    /// Run the operation.
    Run,
    /// Tell why the operation failed.
    Diagnose,
    /// Tell how the operation finished.
    Finish,
}

/// What follows a step of an observed operation, which failed or not; after the last one its
/// result is returned. How a receiver takes an event makes no difference.
pub open spec fn observe_after(step: ObserveStep, failed: bool) -> Option<ObserveStep> {
    match step {
        ObserveStep::Announce => Some(ObserveStep::Run),
        ObserveStep::Run => if failed {
            Some(ObserveStep::Diagnose)
        } else {
            Some(ObserveStep::Finish)
        },
        ObserveStep::Diagnose => Some(ObserveStep::Finish),
        ObserveStep::Finish => None,
    }
}

impl ObserveStep {
    /// Decides what follows this step.
    pub fn after(self, failed: bool) -> (next: Option<ObserveStep>)
        ensures
            next == observe_after(self, failed),
    {
        match self {
            ObserveStep::Announce => Some(ObserveStep::Run),
            ObserveStep::Run => if failed {
                Some(ObserveStep::Diagnose)
            } else {
                Some(ObserveStep::Finish)
            },
            ObserveStep::Diagnose => Some(ObserveStep::Finish),
            ObserveStep::Finish => None,
        }
    }
}

/// What happens in a step of an observed operation.
pub enum Observed<'a> {
    /// An event reaches the receiver of progress.
    Progress(ProgressEvent),
    /// The operation runs.
    Work,
    /// A diagnostic reaches its receiver.
    Diagnostic(OperationId, EngineOperation, EngineFailureRef<'a>),
}

/// What happens in a step of an observed operation that ended with this failure, if any.
pub open spec fn observed_in<'a>(
    step: ObserveStep,
    operation_id: OperationId,
    operation: EngineOperation,
    failure: Option<EngineFailureRef<'a>>,
) -> Observed<'a> {
    match step {
        ObserveStep::Announce => Observed::Progress(
            ProgressEvent::OperationStarted { operation_id, operation },
        ),
        ObserveStep::Run => Observed::Work,
        ObserveStep::Diagnose => Observed::Diagnostic(operation_id, operation, failure->0),
        ObserveStep::Finish => Observed::Progress(
            ProgressEvent::OperationFinished {
                operation_id,
                operation,
                outcome: if failure is None {
                    OperationOutcome::Succeeded
                } else {
                    OperationOutcome::Failed
                },
            },
        ),
    }
}

/// What to do in a step of an observed operation.
#[derive(Debug)]
pub enum ObserveAction<'a> {
    /// Emit an event to the receiver of progress.
    Progress(ProgressEvent),
    /// Run the operation.
    Work,
    /// Emit a diagnostic to its receiver.
    Diagnostic(DiagnosticEvent<'a>),
}

/// What an action makes happen.
pub open spec fn action_observed<'a>(action: ObserveAction<'a>) -> Observed<'a> {
    match action {
        ObserveAction::Progress(event) => Observed::Progress(event),
        ObserveAction::Work => Observed::Work,
        ObserveAction::Diagnostic(event) => Observed::Diagnostic(
            event.parts().0,
            event.parts().1,
            event.parts().2,
        ),
    }
}

/// Tells what to do in a step of an observed operation.
pub fn observe_action<'a>(
    step: ObserveStep,
    operation_id: OperationId,
    operation: EngineOperation,
    failure: Option<EngineFailureRef<'a>>,
) -> (action: ObserveAction<'a>)
    requires
        step == ObserveStep::Diagnose ==> failure is Some,
    ensures
        action_observed(action) == observed_in(step, operation_id, operation, failure),
{
    match step {
        ObserveStep::Announce => ObserveAction::Progress(
            ProgressEvent::OperationStarted { operation_id, operation },
        ),
        ObserveStep::Run => ObserveAction::Work,
        ObserveStep::Diagnose | ObserveStep::Finish => {
            let (diagnostic, finished) = close_operation(operation_id, operation, failure);
            match (step, diagnostic) {
                (ObserveStep::Diagnose, Some(event)) => ObserveAction::Diagnostic(event),
                _ => ObserveAction::Progress(finished),
            }
        },
    }
}

/// How many steps are left at most.
pub open spec fn observe_steps_left(step: ObserveStep) -> nat {
    match step {
        ObserveStep::Announce => 3,
        ObserveStep::Run => 2,
        ObserveStep::Diagnose => 1,
        ObserveStep::Finish => 0,
    }
}

/// Everything that happens from a step of an observed operation on, in its order.
pub open spec fn observed_from<'a>(
    step: ObserveStep,
    operation_id: OperationId,
    operation: EngineOperation,
    failure: Option<EngineFailureRef<'a>>,
) -> Seq<Observed<'a>>
    decreases observe_steps_left(step),
{
    let first = seq![observed_in(step, operation_id, operation, failure)];
    match observe_after(step, failure is Some) {
        Some(next) => first + observed_from(next, operation_id, operation, failure),
        None => first,
    }
}

/// An operation is announced before it runs and told to have finished at the very end, as
/// succeeded exactly where it did. Where it failed, there is one diagnostic between the two,
/// with its failure; where it succeeded, there is none.
pub proof fn lemma_observation_keeps_its_order<'a>(
    operation_id: OperationId,
    operation: EngineOperation,
    failure: Option<EngineFailureRef<'a>>,
)
    ensures
        observed_from(ObserveStep::Announce, operation_id, operation, failure) == seq![
            Observed::Progress(ProgressEvent::OperationStarted { operation_id, operation }),
            Observed::Work,
        ] + (match failure {
            Some(cause) => seq![
                Observed::Diagnostic(operation_id, operation, cause),
                Observed::Progress(
                    ProgressEvent::OperationFinished {
                        operation_id,
                        operation,
                        outcome: OperationOutcome::Failed,
                    },
                ),
            ],
            None => seq![
                Observed::Progress(
                    ProgressEvent::OperationFinished {
                        operation_id,
                        operation,
                        outcome: OperationOutcome::Succeeded,
                    },
                ),
            ],
        }),
{
    reveal_with_fuel(observed_from, 4);
}

/// Receives typed diagnostics without replacing the returned structured error.
pub trait DiagnosticSink: Send + Sync + 'static {
    /// Called on the thread that executed the operation, after it failed.
    fn emit(&self, event: DiagnosticEvent<'_>);
}

/// Takes diagnostics and does nothing with them.
#[derive(Debug)]
pub struct NoopDiagnosticSink;

impl DiagnosticSink for NoopDiagnosticSink {
    fn emit(&self, _event: DiagnosticEvent<'_>) {
    }
}

} // verus!
