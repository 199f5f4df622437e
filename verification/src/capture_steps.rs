//! The order in which a local pack is captured and published.
//!
//! The caller performs the current step and reports how it went.

use vstd::prelude::*;

use crate::error::EngineError;
use crate::store_steps;
use crate::store_steps::Progress;
use crate::store_types::{PackObjectPublication, StoreAccess};

verus! {

/// A step of capturing a local pack.
#[derive(Clone, Copy, Debug, PartialEq, Eq, Structural)]
pub enum CaptureStep {
    /// Normalize the path of the source.
    NormalizeSource,
    /// Check that the path is not part of that of the state root.
    RejectLexicalOverlap,
    /// Open the source, or check that an open one is at the path.
    PinSource,
    /// Open the store.
    OpenStore,
    /// Check the store.
    RevalidateStore,
    /// Check that the source is not part of the state root.
    RejectOverlap,
    /// Check that the source is still where it was.
    RevalidateSource,
    /// Read every captured file below the source.
    Walk,
    /// Check that the source is still where it was.
    RevalidateSourceAfterWalk,
    /// Check the store once more.
    RevalidateStoreAfterWalk,
    /// Verify that what was read is a pack.
    VerifyPack,
    /// Compare the digest of the pack with the expected one, if any.
    CheckDigest,
    /// Check that the source is still where it was.
    RevalidateSourceLast,
    /// Check the store once more.
    RevalidateStoreLast,
    /// Publish the pack: `Ok(false)` where the store has it already.
    Publish,
}

/// What follows a step of capturing a local pack.
pub open spec fn capture_after(
    step: CaptureStep,
    reply: Result<bool, EngineError<Seq<char>, Seq<u8>>>,
) -> Progress<CaptureStep, PackObjectPublication, EngineError<Seq<char>, Seq<u8>>> {
    match reply {
        Err(error) => Progress::Failed(error),
        Ok(yes) => match step {
            CaptureStep::NormalizeSource => Progress::Next(CaptureStep::RejectLexicalOverlap),
            CaptureStep::RejectLexicalOverlap => Progress::Next(CaptureStep::PinSource),
            CaptureStep::PinSource => Progress::Next(CaptureStep::OpenStore),
            CaptureStep::OpenStore => Progress::Next(CaptureStep::RevalidateStore),
            CaptureStep::RevalidateStore => Progress::Next(CaptureStep::RejectOverlap),
            CaptureStep::RejectOverlap => Progress::Next(CaptureStep::RevalidateSource),
            CaptureStep::RevalidateSource => Progress::Next(CaptureStep::Walk),
            CaptureStep::Walk => Progress::Next(CaptureStep::RevalidateSourceAfterWalk),
            CaptureStep::RevalidateSourceAfterWalk => Progress::Next(CaptureStep::RevalidateStoreAfterWalk),
            CaptureStep::RevalidateStoreAfterWalk => Progress::Next(CaptureStep::VerifyPack),
            CaptureStep::VerifyPack => Progress::Next(CaptureStep::CheckDigest),
            CaptureStep::CheckDigest => Progress::Next(CaptureStep::RevalidateSourceLast),
            CaptureStep::RevalidateSourceLast => Progress::Next(CaptureStep::RevalidateStoreLast),
            CaptureStep::RevalidateStoreLast => Progress::Next(CaptureStep::Publish),
            CaptureStep::Publish => if yes {
                Progress::Done(PackObjectPublication::Published)
            } else {
                Progress::Done(PackObjectPublication::Reused)
            },
        },
    }
}

impl CaptureStep {
    /// Decides what follows this step.
    pub fn after(self, reply: Result<bool, EngineError>) -> (progress: Progress<CaptureStep, PackObjectPublication>)
        ensures
            store_steps::progress_view(progress) == capture_after(self, store_steps::reply_view(reply)),
    {
        let yes = match reply {
            Err(error) => {
                return Progress::Failed(error);
            },
            Ok(yes) => yes,
        };
        match self {
            CaptureStep::NormalizeSource => Progress::Next(CaptureStep::RejectLexicalOverlap),
            CaptureStep::RejectLexicalOverlap => Progress::Next(CaptureStep::PinSource),
            CaptureStep::PinSource => Progress::Next(CaptureStep::OpenStore),
            CaptureStep::OpenStore => Progress::Next(CaptureStep::RevalidateStore),
            CaptureStep::RevalidateStore => Progress::Next(CaptureStep::RejectOverlap),
            CaptureStep::RejectOverlap => Progress::Next(CaptureStep::RevalidateSource),
            CaptureStep::RevalidateSource => Progress::Next(CaptureStep::Walk),
            CaptureStep::Walk => Progress::Next(CaptureStep::RevalidateSourceAfterWalk),
            CaptureStep::RevalidateSourceAfterWalk => Progress::Next(CaptureStep::RevalidateStoreAfterWalk),
            CaptureStep::RevalidateStoreAfterWalk => Progress::Next(CaptureStep::VerifyPack),
            CaptureStep::VerifyPack => Progress::Next(CaptureStep::CheckDigest),
            CaptureStep::CheckDigest => Progress::Next(CaptureStep::RevalidateSourceLast),
            CaptureStep::RevalidateSourceLast => Progress::Next(CaptureStep::RevalidateStoreLast),
            CaptureStep::RevalidateStoreLast => Progress::Next(CaptureStep::Publish),
            CaptureStep::Publish => if yes {
                Progress::Done(PackObjectPublication::Published)
            } else {
                Progress::Done(PackObjectPublication::Reused)
            },
        }
    }
}

/// Capturing needs a store that may be written.
pub open spec fn begin_capture(access: StoreAccess) -> Progress<
    CaptureStep,
    PackObjectPublication,
    EngineError<Seq<char>, Seq<u8>>,
> {
    if access == StoreAccess::ReadWrite {
        Progress::Next(CaptureStep::NormalizeSource)
    } else {
        Progress::Failed(EngineError::ReadOnlyStore)
    }
}

/// Starts capturing a local pack, which needs a store that may be written.
pub fn start_capture(access: StoreAccess) -> (progress: Progress<CaptureStep, PackObjectPublication>)
    ensures
        store_steps::progress_view(progress) == begin_capture(access),
{
    match access {
        StoreAccess::ReadWrite => Progress::Next(CaptureStep::NormalizeSource),
        _ => Progress::Failed(EngineError::ReadOnlyStore),
    }
}

/// The place of a step in the order.
pub open spec fn capture_rank(step: CaptureStep) -> nat {
    match step {
        CaptureStep::NormalizeSource => 0,
        CaptureStep::RejectLexicalOverlap => 1,
        CaptureStep::PinSource => 2,
        CaptureStep::OpenStore => 3,
        CaptureStep::RevalidateStore => 4,
        CaptureStep::RejectOverlap => 5,
        CaptureStep::RevalidateSource => 6,
        CaptureStep::Walk => 7,
        CaptureStep::RevalidateSourceAfterWalk => 8,
        CaptureStep::RevalidateStoreAfterWalk => 9,
        CaptureStep::VerifyPack => 10,
        CaptureStep::CheckDigest => 11,
        CaptureStep::RevalidateSourceLast => 12,
        CaptureStep::RevalidateStoreLast => 13,
        CaptureStep::Publish => 14,
    }
}

/// A capture keeps its order: every step that went well leads to the one right behind it, and
/// only the last one ends the capture. So the bytes that are published were checked against
/// the expected digest, and source and store were found unchanged after that.
pub proof fn lemma_capture_keeps_its_order(
    step: CaptureStep,
    reply: Result<bool, EngineError<Seq<char>, Seq<u8>>>,
)
    ensures
        match capture_after(step, reply) {
            Progress::Next(next) => reply is Ok && capture_rank(next) == capture_rank(step) + 1,
            Progress::Done(_) => reply is Ok && step is Publish,
            Progress::Failed(error) => reply == Err::<bool, EngineError<Seq<char>, Seq<u8>>>(error),
        },
        capture_rank(CaptureStep::Walk) < capture_rank(CaptureStep::CheckDigest),
        capture_rank(CaptureStep::CheckDigest) < capture_rank(CaptureStep::RevalidateSourceLast),
        capture_rank(CaptureStep::RevalidateStoreLast) < capture_rank(CaptureStep::Publish),
{
}

/// Each step of capturing a pack comes after the one that it rests on, and none is left out. A
/// failed step ends it; the outcome is that of the publication.
pub proof fn lemma_capture_steps_follow_one_another(
    step: CaptureStep,
    reply: Result<bool, EngineError<Seq<char>, Seq<u8>>>,
)
    ensures
        match capture_after(step, reply) {
            Progress::Next(next) => match next {
                CaptureStep::NormalizeSource => false,
                CaptureStep::RejectLexicalOverlap => step is NormalizeSource && reply is Ok,
                CaptureStep::PinSource => step is RejectLexicalOverlap && reply is Ok,
                CaptureStep::OpenStore => step is PinSource && reply is Ok,
                CaptureStep::RevalidateStore => step is OpenStore && reply is Ok,
                CaptureStep::RejectOverlap => step is RevalidateStore && reply is Ok,
                CaptureStep::RevalidateSource => step is RejectOverlap && reply is Ok,
                CaptureStep::Walk => step is RevalidateSource && reply is Ok,
                CaptureStep::RevalidateSourceAfterWalk => step is Walk && reply is Ok,
                CaptureStep::RevalidateStoreAfterWalk => step is RevalidateSourceAfterWalk
                    && reply is Ok,
                CaptureStep::VerifyPack => step is RevalidateStoreAfterWalk && reply is Ok,
                CaptureStep::CheckDigest => step is VerifyPack && reply is Ok,
                CaptureStep::RevalidateSourceLast => step is CheckDigest && reply is Ok,
                CaptureStep::RevalidateStoreLast => step is RevalidateSourceLast && reply is Ok,
                CaptureStep::Publish => step is RevalidateStoreLast && reply is Ok,
            },
            Progress::Done(PackObjectPublication::Published) => step is Publish
                && (reply matches Ok(yes) && yes),
            Progress::Done(PackObjectPublication::Reused) => step is Publish
                && (reply matches Ok(yes) && !yes),
            Progress::Failed(error) => reply == Err::<bool, EngineError<Seq<char>, Seq<u8>>>(error),
        },
{
}

} // verus!
