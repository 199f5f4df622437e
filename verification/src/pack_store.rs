//! Loading packs from the store.

use vstd::prelude::*;

use crate::error::{CanonicalObjectIssue, EngineError};
use crate::objects;
use crate::objects::{validate_object_stat, ObjectTarget};
use crate::pack_manifest::MAX_PACK_MANIFEST_OBJECT_BYTES;
use crate::stat;
use crate::stat::FileStat;
use crate::state_root;
use crate::store_steps;
use crate::store_steps::Progress;
use crate::text::{concat3, text_equal};

verus! {

/// The check of a manifest before it is opened: it must be a sound object and not too large.
pub open spec fn manifest_check(
    target: ObjectTarget<Seq<char>, Seq<u8>>,
    stat: FileStat,
    user: u32,
) -> Result<(), EngineError<Seq<char>, Seq<u8>>> {
    match objects::object_check(target, stat, 1, user) {
        Err(error) => Err(error),
        Ok(_) => if stat.size < 0 || stat.size > MAX_PACK_MANIFEST_OBJECT_BYTES {
            Err(
                objects::object_failure(
                    target,
                    CanonicalObjectIssue::InvalidEncoding {
                        detail: "pack manifest exceeds the size limit"@,
                    },
                ),
            )
        } else {
            Ok(())
        },
    }
}

/// Checks a manifest before it is opened or read.
pub fn check_manifest(target: &ObjectTarget, stat: &FileStat, expected_user_id: u32) -> (checked:
    Result<(), EngineError>)
    ensures
        state_root::check_is(checked, manifest_check(target@, *stat, expected_user_id)),
{
    match validate_object_stat(target, stat, 1, expected_user_id) {
        Err(error) => {
            return Err(error);
        },
        Ok(_) => {},
    }
    if stat.size < 0 || stat.size as u64 > MAX_PACK_MANIFEST_OBJECT_BYTES {
        return Err(
            target.error(
                CanonicalObjectIssue::InvalidEncoding {
                    detail: "pack manifest exceeds the size limit".to_owned(),
                },
            ),
        );
    }
    Ok(())
}

/// Checks that what was opened is the manifest that was observed, and that it is in order.
pub fn check_opened_manifest(
    target: &ObjectTarget,
    observed: &FileStat,
    opened: &FileStat,
    expected_user_id: u32,
) -> (checked: Result<(), EngineError>)
    ensures
        state_root::check_is(
            checked,
            if stat::are_same_object(*observed, *opened) {
                manifest_check(target@, *opened, expected_user_id)
            } else {
                Err(objects::object_failure(target@, CanonicalObjectIssue::ObservationChanged))
            },
        ),
{
    if !observed.same_object(opened) {
        return Err(target.error(CanonicalObjectIssue::ObservationChanged));
    }
    check_manifest(target, opened, expected_user_id)
}

/// Checks that a member's blob has the length that the manifest names.
pub fn check_member_length(target: &ObjectTarget, path: &str, actual: u64, byte_len: u64) -> (checked:
    Result<(), EngineError>)
    ensures
        state_root::check_is(
            checked,
            if actual == byte_len {
                Ok(())
            } else {
                Err(
                    objects::object_failure(
                        target@,
                        CanonicalObjectIssue::InvalidEncoding {
                            detail: "member "@ + path@ + " length differs from its manifest entry"@,
                        },
                    ),
                )
            },
        ),
{
    if actual == byte_len {
        return Ok(());
    }
    Err(
        target.error(
            CanonicalObjectIssue::InvalidEncoding {
                detail: concat3("member ", path, " length differs from its manifest entry"),
            },
        ),
    )
}

/// Checks that the content of a pack has the expected digest.
pub fn check_pack_digest(target: &ObjectTarget, actual: &str) -> (checked: Result<(), EngineError>)
    ensures
        state_root::check_is(
            checked,
            if actual@ == target@.digest {
                Ok(())
            } else {
                Err(
                    objects::object_failure(
                        target@,
                        CanonicalObjectIssue::DigestMismatch { actual: actual@ },
                    ),
                )
            },
        ),
{
    if text_equal(actual, target.digest.as_str()) {
        Ok(())
    } else {
        Err(target.error(CanonicalObjectIssue::DigestMismatch { actual: actual.to_owned() }))
    }
}

/// A step of loading a pack.
#[derive(Clone, Copy, Debug, PartialEq, Eq, Structural)]
pub enum LoadPackStep {
    /// Open the store.
    OpenStore,
    /// Check the store.
    RevalidateStore,
    /// Open the directories: `Ok(false)` where one is missing.
    OpenContainers,
    /// Look for the manifest: `Ok(false)` where it does not exist.
    LookUpManifest,
    /// Check the manifest.
    InspectManifest,
    /// Open the manifest.
    OpenManifest,
    /// Check that what was opened is the manifest, and is not too large.
    InspectOpened,
    /// Read the manifest.
    ReadManifest,
    /// Decode the manifest.
    DecodeManifest,
    /// Load each member and check its length.
    LoadMembers,
    /// Compute the digest of the members and compare it.
    CheckDigest,
    /// Read and verify the pack in one piece.
    ReadExisting,
}

/// What follows a step of loading a pack.
pub open spec fn load_pack_after(
    step: LoadPackStep,
    reply: Result<bool, EngineError<Seq<char>, Seq<u8>>>,
    target: ObjectTarget<Seq<char>, Seq<u8>>,
) -> Progress<LoadPackStep, (), EngineError<Seq<char>, Seq<u8>>> {
    match reply {
        Err(error) => Progress::Failed(error),
        Ok(yes) => match step {
            LoadPackStep::OpenStore => Progress::Next(LoadPackStep::RevalidateStore),
            LoadPackStep::RevalidateStore => Progress::Next(LoadPackStep::OpenContainers),
            LoadPackStep::OpenContainers => if yes {
                Progress::Next(LoadPackStep::LookUpManifest)
            } else {
                Progress::Failed(objects::object_failure(target, CanonicalObjectIssue::Missing))
            },
            LoadPackStep::LookUpManifest => if yes {
                Progress::Next(LoadPackStep::InspectManifest)
            } else {
                Progress::Next(LoadPackStep::ReadExisting)
            },
            LoadPackStep::InspectManifest => Progress::Next(LoadPackStep::OpenManifest),
            LoadPackStep::OpenManifest => Progress::Next(LoadPackStep::InspectOpened),
            LoadPackStep::InspectOpened => Progress::Next(LoadPackStep::ReadManifest),
            LoadPackStep::ReadManifest => Progress::Next(LoadPackStep::DecodeManifest),
            LoadPackStep::DecodeManifest => Progress::Next(LoadPackStep::LoadMembers),
            LoadPackStep::LoadMembers => Progress::Next(LoadPackStep::CheckDigest),
            LoadPackStep::CheckDigest => Progress::Done(()),
            LoadPackStep::ReadExisting => Progress::Done(()),
        },
    }
}

impl LoadPackStep {
    /// Decides what follows this step.
    pub fn after(self, reply: Result<bool, EngineError>, target: &ObjectTarget) -> (progress: Progress<LoadPackStep, ()>)
        ensures
            store_steps::progress_view(progress) == load_pack_after(self, store_steps::reply_view(reply), target@),
    {
        let yes = match reply {
            Err(error) => {
                return Progress::Failed(error);
            },
            Ok(yes) => yes,
        };
        match self {
            LoadPackStep::OpenStore => Progress::Next(LoadPackStep::RevalidateStore),
            LoadPackStep::RevalidateStore => Progress::Next(LoadPackStep::OpenContainers),
            LoadPackStep::OpenContainers => if yes {
                Progress::Next(LoadPackStep::LookUpManifest)
            } else {
                Progress::Failed(target.error(CanonicalObjectIssue::Missing))
            },
            LoadPackStep::LookUpManifest => if yes {
                Progress::Next(LoadPackStep::InspectManifest)
            } else {
                Progress::Next(LoadPackStep::ReadExisting)
            },
            LoadPackStep::InspectManifest => Progress::Next(LoadPackStep::OpenManifest),
            LoadPackStep::OpenManifest => Progress::Next(LoadPackStep::InspectOpened),
            LoadPackStep::InspectOpened => Progress::Next(LoadPackStep::ReadManifest),
            LoadPackStep::ReadManifest => Progress::Next(LoadPackStep::DecodeManifest),
            LoadPackStep::DecodeManifest => Progress::Next(LoadPackStep::LoadMembers),
            LoadPackStep::LoadMembers => Progress::Next(LoadPackStep::CheckDigest),
            LoadPackStep::CheckDigest => Progress::Done(()),
            LoadPackStep::ReadExisting => Progress::Done(()),
        }
    }
}

/// How far loading a pack has come.
pub open spec fn load_pack_rank(step: LoadPackStep) -> nat {
    match step {
        LoadPackStep::OpenStore => 0,
        LoadPackStep::RevalidateStore => 1,
        LoadPackStep::OpenContainers => 2,
        LoadPackStep::LookUpManifest => 3,
        LoadPackStep::InspectManifest => 4,
        LoadPackStep::OpenManifest => 5,
        LoadPackStep::InspectOpened => 6,
        LoadPackStep::ReadManifest => 7,
        LoadPackStep::DecodeManifest => 8,
        LoadPackStep::LoadMembers => 9,
        LoadPackStep::CheckDigest => 10,
        LoadPackStep::ReadExisting => 11,
    }
}

/// Loading a pack never goes back, and it succeeds only where the content was compared with the
/// digest that names it.
pub proof fn lemma_loaded_pack_has_its_digest(
    step: LoadPackStep,
    reply: Result<bool, EngineError<Seq<char>, Seq<u8>>>,
    target: ObjectTarget<Seq<char>, Seq<u8>>,
)
    ensures
        load_pack_after(step, reply, target) matches Progress::Next(next) ==> load_pack_rank(step)
            < load_pack_rank(next),
        load_pack_after(step, reply, target) is Done ==> reply is Ok && (step
            == LoadPackStep::CheckDigest || step == LoadPackStep::ReadExisting),
{
}

/// Each step of loading a pack comes after the one that it rests on, and none is left out. A failed
/// step ends it, and so does a store without packs.
pub proof fn lemma_load_steps_follow_one_another(
    step: LoadPackStep,
    reply: Result<bool, EngineError<Seq<char>, Seq<u8>>>,
    target: ObjectTarget<Seq<char>, Seq<u8>>,
)
    ensures
        match load_pack_after(step, reply, target) {
            Progress::Next(next) => match next {
                LoadPackStep::OpenStore => false,
                LoadPackStep::RevalidateStore => step is OpenStore && reply is Ok,
                LoadPackStep::OpenContainers => step is RevalidateStore && reply is Ok,
                LoadPackStep::LookUpManifest => step is OpenContainers && (reply matches Ok(yes)
                    && yes),
                LoadPackStep::InspectManifest => step is LookUpManifest && (reply matches Ok(yes)
                    && yes),
                LoadPackStep::OpenManifest => step is InspectManifest && reply is Ok,
                LoadPackStep::InspectOpened => step is OpenManifest && reply is Ok,
                LoadPackStep::ReadManifest => step is InspectOpened && reply is Ok,
                LoadPackStep::DecodeManifest => step is ReadManifest && reply is Ok,
                LoadPackStep::LoadMembers => step is DecodeManifest && reply is Ok,
                LoadPackStep::CheckDigest => step is LoadMembers && reply is Ok,
                LoadPackStep::ReadExisting => step is LookUpManifest && (reply matches Ok(yes)
                    && !yes),
            },
            Progress::Done(_) => (step is CheckDigest && reply is Ok) || (step is ReadExisting
                && reply is Ok),
            Progress::Failed(error) => reply == Err::<bool, EngineError<Seq<char>, Seq<u8>>>(error)
                || (step is OpenContainers && (reply matches Ok(yes) && !yes)
                && error == objects::object_failure(target, CanonicalObjectIssue::Missing)),
        },
{
}

} // verus!
