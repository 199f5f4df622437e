//! The order in which a pack is acquired from an exact Git commit.
//!
//! The caller performs the current step and reports how it went.

use vstd::prelude::*;

use crate::error::EngineError;
use crate::store_steps;
use crate::store_steps::Progress;
use crate::store_types::{PackObjectPublication, StoreAccess};

verus! {

/// A step of acquiring a pack.
#[derive(Clone, Copy, Debug, PartialEq, Eq, Structural)]
pub enum AcquireStep {
    /// Look for the locked pack in the store: `Ok(false)` where it is missing.
    LookUpCached,
    /// Normalize the scratch path and keep it apart from the state root.
    NormalizeScratch,
    /// Open the store.
    OpenStore,
    /// Check the store.
    RevalidateStore,
    /// Open the scratch directory.
    PinScratch,
    /// Check that the scratch directory is not part of the state root.
    RejectOverlap,
    /// Check that the scratch directory is private and empty.
    ValidateScratch,
    /// Check the store once more.
    RevalidateStoreBeforeGit,
    /// Initialize a repository in the scratch directory.
    Initialize,
    /// Check that the scratch directory is still where it was.
    RevalidateAfterInitialize,
    /// Fetch the commit.
    Fetch,
    /// Check that the scratch directory is still where it was.
    RevalidateAfterFetch,
    /// Read the selected tree.
    ReadPack,
    /// Compare the digest of the tree with the locked one.
    CheckDigest,
    /// Verify that the tree is a pack.
    VerifyPack,
    /// Check that the scratch directory is still where it was.
    RevalidateScratchLast,
    /// Check the store once more.
    RevalidateStoreLast,
    /// Publish the pack: `Ok(false)` where the store has it by now.
    Publish,
}

/// Fetching needs a store that may be written.
pub open spec fn begin_fetch(access: StoreAccess) -> Progress<
    AcquireStep,
    PackObjectPublication,
    EngineError<Seq<char>, Seq<u8>>,
> {
    if access == StoreAccess::ReadWrite {
        Progress::Next(AcquireStep::NormalizeScratch)
    } else {
        Progress::Failed(EngineError::ReadOnlyStore)
    }
}

fn begin_fetching(access: StoreAccess) -> (progress: Progress<AcquireStep, PackObjectPublication>)
    ensures
        store_steps::progress_view(progress) == begin_fetch(access),
{
    match access {
        StoreAccess::ReadWrite => Progress::Next(AcquireStep::NormalizeScratch),
        _ => Progress::Failed(EngineError::ReadOnlyStore),
    }
}

/// Starts acquiring a pack: a locked pack is first looked for in the store.
pub fn start_acquisition(is_locked: bool, access: StoreAccess) -> (progress: Progress<
    AcquireStep,
    PackObjectPublication,
>)
    ensures
        store_steps::progress_view(progress) == if is_locked {
            Progress::Next(AcquireStep::LookUpCached)
        } else {
            begin_fetch(access)
        },
{
    if is_locked {
        Progress::Next(AcquireStep::LookUpCached)
    } else {
        begin_fetching(access)
    }
}

/// What follows a step of acquiring a pack.
pub open spec fn acquire_after(
    step: AcquireStep,
    reply: Result<bool, EngineError<Seq<char>, Seq<u8>>>,
    access: StoreAccess,
) -> Progress<AcquireStep, PackObjectPublication, EngineError<Seq<char>, Seq<u8>>> {
    match reply {
        Err(error) => Progress::Failed(error),
        Ok(yes) => match step {
            AcquireStep::LookUpCached => if yes {
                Progress::Done(PackObjectPublication::Reused)
            } else {
                begin_fetch(access)
            },
            AcquireStep::NormalizeScratch => Progress::Next(AcquireStep::OpenStore),
            AcquireStep::OpenStore => Progress::Next(AcquireStep::RevalidateStore),
            AcquireStep::RevalidateStore => Progress::Next(AcquireStep::PinScratch),
            AcquireStep::PinScratch => Progress::Next(AcquireStep::RejectOverlap),
            AcquireStep::RejectOverlap => Progress::Next(AcquireStep::ValidateScratch),
            AcquireStep::ValidateScratch => Progress::Next(AcquireStep::RevalidateStoreBeforeGit),
            AcquireStep::RevalidateStoreBeforeGit => Progress::Next(AcquireStep::Initialize),
            AcquireStep::Initialize => Progress::Next(AcquireStep::RevalidateAfterInitialize),
            AcquireStep::RevalidateAfterInitialize => Progress::Next(AcquireStep::Fetch),
            AcquireStep::Fetch => Progress::Next(AcquireStep::RevalidateAfterFetch),
            AcquireStep::RevalidateAfterFetch => Progress::Next(AcquireStep::ReadPack),
            AcquireStep::ReadPack => Progress::Next(AcquireStep::CheckDigest),
            AcquireStep::CheckDigest => Progress::Next(AcquireStep::VerifyPack),
            AcquireStep::VerifyPack => Progress::Next(AcquireStep::RevalidateScratchLast),
            AcquireStep::RevalidateScratchLast => Progress::Next(AcquireStep::RevalidateStoreLast),
            AcquireStep::RevalidateStoreLast => Progress::Next(AcquireStep::Publish),
            AcquireStep::Publish => if yes {
                Progress::Done(PackObjectPublication::Published)
            } else {
                Progress::Done(PackObjectPublication::Reused)
            },
        },
    }
}

impl AcquireStep {
    /// Decides what follows this step.
    pub fn after(self, reply: Result<bool, EngineError>, access: StoreAccess) -> (progress: Progress<AcquireStep, PackObjectPublication>)
        ensures
            store_steps::progress_view(progress) == acquire_after(self, store_steps::reply_view(reply), access),
    {
        let yes = match reply {
            Err(error) => {
                return Progress::Failed(error);
            },
            Ok(yes) => yes,
        };
        match self {
            AcquireStep::LookUpCached => if yes {
                Progress::Done(PackObjectPublication::Reused)
            } else {
                begin_fetching(access)
            },
            AcquireStep::NormalizeScratch => Progress::Next(AcquireStep::OpenStore),
            AcquireStep::OpenStore => Progress::Next(AcquireStep::RevalidateStore),
            AcquireStep::RevalidateStore => Progress::Next(AcquireStep::PinScratch),
            AcquireStep::PinScratch => Progress::Next(AcquireStep::RejectOverlap),
            AcquireStep::RejectOverlap => Progress::Next(AcquireStep::ValidateScratch),
            AcquireStep::ValidateScratch => Progress::Next(AcquireStep::RevalidateStoreBeforeGit),
            AcquireStep::RevalidateStoreBeforeGit => Progress::Next(AcquireStep::Initialize),
            AcquireStep::Initialize => Progress::Next(AcquireStep::RevalidateAfterInitialize),
            AcquireStep::RevalidateAfterInitialize => Progress::Next(AcquireStep::Fetch),
            AcquireStep::Fetch => Progress::Next(AcquireStep::RevalidateAfterFetch),
            AcquireStep::RevalidateAfterFetch => Progress::Next(AcquireStep::ReadPack),
            AcquireStep::ReadPack => Progress::Next(AcquireStep::CheckDigest),
            AcquireStep::CheckDigest => Progress::Next(AcquireStep::VerifyPack),
            AcquireStep::VerifyPack => Progress::Next(AcquireStep::RevalidateScratchLast),
            AcquireStep::RevalidateScratchLast => Progress::Next(AcquireStep::RevalidateStoreLast),
            AcquireStep::RevalidateStoreLast => Progress::Next(AcquireStep::Publish),
            AcquireStep::Publish => if yes {
                Progress::Done(PackObjectPublication::Published)
            } else {
                Progress::Done(PackObjectPublication::Reused)
            },
        }
    }
}

/// How far the acquisition of a pack has come.
pub open spec fn acquire_rank(step: AcquireStep) -> nat {
    match step {
        AcquireStep::LookUpCached => 0,
        AcquireStep::NormalizeScratch => 1,
        AcquireStep::OpenStore => 2,
        AcquireStep::RevalidateStore => 3,
        AcquireStep::PinScratch => 4,
        AcquireStep::RejectOverlap => 5,
        AcquireStep::ValidateScratch => 6,
        AcquireStep::RevalidateStoreBeforeGit => 7,
        AcquireStep::Initialize => 8,
        AcquireStep::RevalidateAfterInitialize => 9,
        AcquireStep::Fetch => 10,
        AcquireStep::RevalidateAfterFetch => 11,
        AcquireStep::ReadPack => 12,
        AcquireStep::CheckDigest => 13,
        AcquireStep::VerifyPack => 14,
        AcquireStep::RevalidateScratchLast => 15,
        AcquireStep::RevalidateStoreLast => 16,
        AcquireStep::Publish => 17,
    }
}

/// Acquiring a pack takes its steps in order and leaves none out: Git runs only in a scratch
/// directory that passed its checks, and a pack is published only right after scratch
/// directory and store were checked for the last time.
pub proof fn lemma_acquisition_keeps_its_order(
    step: AcquireStep,
    reply: Result<bool, EngineError<Seq<char>, Seq<u8>>>,
    access: StoreAccess,
)
    ensures
        acquire_after(step, reply, access) matches Progress::Next(next) ==> acquire_rank(next)
            == acquire_rank(step) + 1 && reply is Ok,
        acquire_after(step, reply, access) is Done ==> reply is Ok && (step
            == AcquireStep::LookUpCached || step == AcquireStep::Publish),
        access == StoreAccess::ReadOnly && step == AcquireStep::LookUpCached ==> acquire_after(
            step,
            reply,
            access,
        ) !is Next,
{
}

/// Each step of acquiring a pack comes after the one that it rests on, and none is left out. A
/// failed step ends it, and so does a store that may not be written; a pack that the store has is
/// reused, else the outcome is that of the publication.
pub proof fn lemma_acquisition_steps_follow_one_another(
    step: AcquireStep,
    reply: Result<bool, EngineError<Seq<char>, Seq<u8>>>,
    access: StoreAccess,
)
    ensures
        match acquire_after(step, reply, access) {
            Progress::Next(next) => match next {
                AcquireStep::LookUpCached => false,
                AcquireStep::NormalizeScratch => access == StoreAccess::ReadWrite
                    && step is LookUpCached && (reply matches Ok(yes) && !yes),
                AcquireStep::OpenStore => step is NormalizeScratch && reply is Ok,
                AcquireStep::RevalidateStore => step is OpenStore && reply is Ok,
                AcquireStep::PinScratch => step is RevalidateStore && reply is Ok,
                AcquireStep::RejectOverlap => step is PinScratch && reply is Ok,
                AcquireStep::ValidateScratch => step is RejectOverlap && reply is Ok,
                AcquireStep::RevalidateStoreBeforeGit => step is ValidateScratch && reply is Ok,
                AcquireStep::Initialize => step is RevalidateStoreBeforeGit && reply is Ok,
                AcquireStep::RevalidateAfterInitialize => step is Initialize && reply is Ok,
                AcquireStep::Fetch => step is RevalidateAfterInitialize && reply is Ok,
                AcquireStep::RevalidateAfterFetch => step is Fetch && reply is Ok,
                AcquireStep::ReadPack => step is RevalidateAfterFetch && reply is Ok,
                AcquireStep::CheckDigest => step is ReadPack && reply is Ok,
                AcquireStep::VerifyPack => step is CheckDigest && reply is Ok,
                AcquireStep::RevalidateScratchLast => step is VerifyPack && reply is Ok,
                AcquireStep::RevalidateStoreLast => step is RevalidateScratchLast && reply is Ok,
                AcquireStep::Publish => step is RevalidateStoreLast && reply is Ok,
            },
            Progress::Done(PackObjectPublication::Published) => step is Publish
                && (reply matches Ok(yes) && yes),
            Progress::Done(PackObjectPublication::Reused) => (step is LookUpCached
                && (reply matches Ok(yes) && yes)) || (step is Publish && (reply matches Ok(yes)
                && !yes)),
            Progress::Failed(error) => reply == Err::<bool, EngineError<Seq<char>, Seq<u8>>>(error)
                || (step is LookUpCached && (reply matches Ok(yes) && !yes)
                && access != StoreAccess::ReadWrite
                && error == EngineError::<Seq<char>, Seq<u8>>::ReadOnlyStore),
        },
{
}

} // verus!
