//! Discovering the pack at one source of a lock.
//!
//! Whether and how the pack may be obtained is decided from the grants alone. A directory is
//! then resolved, pinned and captured step by step: the caller performs the current step and
//! reports how it went.

use vstd::prelude::*;
use vstd::utf8::*;

use crate::capture;
use crate::capture::{
    capture_error, normalize_source_root, reject_lexical_state_overlap,
    resolved_locator_descriptor_count,
};
use crate::deployment::{LockResolutionInputs, SourceScratch};
use crate::error::{
    EngineError, GitSource, LockOperationError, PackCaptureIssue, PackObjectIssue,
};
use crate::graph_acquisition::{holds, GraphNode};
use crate::graph_sources;
use crate::graph_sources::{resolve_locator, same_git_source, LockSource};
use crate::lock_graph;
use crate::lock_graph::charge_descriptors;
use crate::path;
use crate::path::paths_equal;
use crate::seqs;
use crate::seqs::copy_bytes;
use crate::store_steps::Progress;
use crate::store_types::PackObjectPublication;

verus! {

/// How the pack at a source is obtained; `T` is the type of text and `B` that of paths.
#[derive(Clone, Debug, PartialEq, Eq)]
#[allow(inconsistent_fields)]
pub enum DependencyWay<T = String, B = Vec<u8>> {
    /// A directory is captured.
    Capture { locator: T },
    /// The pack that the lock named before is loaded from the store.
    LoadCached { digest: T },
    /// The pack that the lock named before is fetched where the store lacks it.
    Acquire { digest: T, scratch: B },
    /// The pack is fetched, whatever it is.
    Discover { scratch: B },
}

impl View for DependencyWay<String, Vec<u8>> {
    type V = DependencyWay<Seq<char>, Seq<u8>>;

    open spec fn view(&self) -> DependencyWay<Seq<char>, Seq<u8>> {
        match *self {
            DependencyWay::Capture { locator } => DependencyWay::Capture { locator: locator@ },
            DependencyWay::LoadCached { digest } => DependencyWay::LoadCached { digest: digest@ },
            DependencyWay::Acquire { digest, scratch } => DependencyWay::Acquire {
                digest: digest@,
                scratch: scratch@,
            },
            DependencyWay::Discover { scratch } => DependencyWay::Discover { scratch: scratch@ },
        }
    }
}

/// A directory was granted.
pub open spec fn locator_granted(inputs: LockResolutionInputs, locator: Seq<char>) -> bool {
    seqs::views(inputs.granted_locators()).contains(locator)
}

/// A repository was granted.
pub open spec fn url_granted(inputs: LockResolutionInputs, url: Seq<char>) -> bool {
    seqs::views(inputs.granted_urls()).contains(url)
}

/// The digest that a lock names for a Git source, if it names one.
pub open spec fn locked_digest(
    nodes: Seq<GraphNode<Seq<char>>>,
    source: GitSource<Seq<char>>,
) -> Option<Seq<char>>
    decreases nodes.len(),
{
    if nodes.len() == 0 {
        None
    } else if nodes.last().source == LockSource::Git(source) {
        Some(nodes.last().digest)
    } else {
        locked_digest(nodes.drop_last(), source)
    }
}

/// The scratch directory for a Git source, if there is one.
pub open spec fn scratch_for(
    list: Seq<SourceScratch<Seq<char>, Seq<u8>>>,
    source: GitSource<Seq<char>>,
) -> Option<Seq<u8>>
    decreases list.len(),
{
    if list.len() == 0 {
        None
    } else if list.last().source == source {
        Some(list.last().root)
    } else {
        scratch_for(list.drop_last(), source)
    }
}

/// What was decided of a source, as contracts speak of it.
pub type WayModel = Result<
    DependencyWay<Seq<char>, Seq<u8>>,
    LockOperationError<Seq<char>, Seq<u8>>,
>;

/// What was decided of a source, as contracts speak of it.
pub open spec fn way_view(way: Result<DependencyWay, LockOperationError>) -> WayModel {
    match way {
        Ok(chosen) => Ok(chosen@),
        Err(error) => Err(error@),
    }
}

/// How a granted Git source is obtained: without a scratch directory only from the store, and
/// only where the lock named its digest before.
pub open spec fn git_way(
    expected: Option<Seq<char>>,
    scratch: Option<Seq<u8>>,
    source: GitSource<Seq<char>>,
) -> WayModel {
    match expected {
        Some(digest) => match scratch {
            Some(scratch) => Ok(DependencyWay::Acquire { digest, scratch }),
            None => Ok(DependencyWay::LoadCached { digest }),
        },
        None => match scratch {
            Some(scratch) => Ok(DependencyWay::Discover { scratch }),
            None => Err(LockOperationError::MissingGitScratch { git_source: source }),
        },
    }
}

/// How the pack at a source other than the root is obtained, given the packs that the lock
/// held before.
pub open spec fn way_to_pack(
    inputs: LockResolutionInputs,
    old: Seq<GraphNode<Seq<char>>>,
    source: LockSource<Seq<char>>,
) -> WayModel {
    match source {
        LockSource::Root => arbitrary(),
        LockSource::Local(locator) => if locator_granted(inputs, locator) {
            Ok(DependencyWay::Capture { locator })
        } else {
            Err(LockOperationError::LocalSourceNotGranted { locator })
        },
        LockSource::Git(git) => if url_granted(inputs, git.url) {
            git_way(
                locked_digest(old, git),
                scratch_for(seqs::views(inputs.granted_scratch()), git),
                git,
            )
        } else {
            Err(LockOperationError::GitSourceNotGranted { url: git.url })
        },
    }
}

fn find_locked_digest(nodes: &Vec<GraphNode>, source: &GitSource) -> (digest: Option<String>)
    ensures
        match digest {
            Some(found) => locked_digest(seqs::views(nodes@), source@) == Some(found@),
            None => locked_digest(seqs::views(nodes@), source@) is None,
        },
{
    let ghost all = seqs::views(nodes@);
    let mut i: usize = nodes.len();
    proof {
        assert(all.take(i as int) =~= all);
    }
    while i > 0
        invariant
            i <= nodes.len(),
            all == seqs::views(nodes@),
            locked_digest(all, source@) == locked_digest(all.take(i as int), source@),
        decreases i,
    {
        i = i - 1;
        proof {
            assert(all.take(i + 1).last() == nodes@[i as int]@);
            assert(all.take(i + 1).drop_last() =~= all.take(i as int));
        }
        match &nodes[i].source {
            LockSource::Git(found) => {
                if same_git_source(found, source) {
                    return Some(nodes[i].digest.clone());
                }
            },
            _ => {},
        }
    }
    None
}

fn find_scratch(list: &Vec<SourceScratch>, source: &GitSource) -> (root: Option<Vec<u8>>)
    ensures
        match root {
            Some(found) => scratch_for(seqs::views(list@), source@) == Some(found@),
            None => scratch_for(seqs::views(list@), source@) is None,
        },
{
    let ghost all = seqs::views(list@);
    let mut i: usize = list.len();
    proof {
        assert(all.take(i as int) =~= all);
    }
    while i > 0
        invariant
            i <= list.len(),
            all == seqs::views(list@),
            scratch_for(all, source@) == scratch_for(all.take(i as int), source@),
        decreases i,
    {
        i = i - 1;
        proof {
            assert(all.take(i + 1).last() == list@[i as int]@);
            assert(all.take(i + 1).drop_last() =~= all.take(i as int));
        }
        if same_git_source(&list[i].source, source) {
            return Some(copy_bytes(list[i].root.as_slice()));
        }
    }
    None
}

/// Decides, before anything is read, how the pack at a source is obtained; `old` holds the
/// packs that the lock held before, if there was one.
pub fn dependency_way(
    inputs: &LockResolutionInputs,
    old: &Vec<GraphNode>,
    source: &LockSource,
) -> (way: Result<DependencyWay, LockOperationError>)
    requires
        source@ !is Root,
    ensures
        way_view(way) == way_to_pack(*inputs, seqs::views(old@), source@),
{
    match source {
        LockSource::Root => vstd::pervasive::unreached(),
        LockSource::Local(locator) => {
            if !holds(inputs.local_locators(), locator.as_str()) {
                return Err(LockOperationError::LocalSourceNotGranted { locator: locator.clone() });
            }
            Ok(DependencyWay::Capture { locator: locator.clone() })
        },
        LockSource::Git(git) => {
            if !holds(inputs.git_urls(), git.url.as_str()) {
                return Err(LockOperationError::GitSourceNotGranted { url: git.url.clone() });
            }
            let expected = find_locked_digest(old, git);
            let scratch = find_scratch(inputs.git_scratch_roots(), git);
            match expected {
                Some(digest) => match scratch {
                    Some(scratch) => Ok(DependencyWay::Acquire { digest, scratch }),
                    None => Ok(DependencyWay::LoadCached { digest }),
                },
                None => match scratch {
                    Some(scratch) => Ok(DependencyWay::Discover { scratch }),
                    None => Err(
                        LockOperationError::MissingGitScratch { git_source: git.copied() },
                    ),
                },
            }
        },
    }
}

/// Nothing is captured, loaded or fetched without a grant, and Git is run in a granted scratch
/// directory alone.
pub proof fn lemma_packs_are_obtained_under_grants(
    inputs: LockResolutionInputs,
    old: Seq<GraphNode<Seq<char>>>,
    source: LockSource<Seq<char>>,
)
    requires
        source !is Root,
    ensures
        match way_to_pack(inputs, old, source) {
            Ok(way) => match source {
                LockSource::Root => false,
                LockSource::Local(locator) => way == (DependencyWay::<Seq<char>, Seq<u8>>::Capture {
                    locator,
                }) && locator_granted(inputs, locator),
                LockSource::Git(git) => url_granted(inputs, git.url) && match way {
                    DependencyWay::Capture { locator: _ } => false,
                    DependencyWay::LoadCached { digest } => locked_digest(old, git) == Some(
                        digest,
                    ),
                    DependencyWay::Acquire { digest, scratch } => locked_digest(old, git) == Some(
                        digest,
                    ) && scratch_for(seqs::views(inputs.granted_scratch()), git) == Some(scratch),
                    DependencyWay::Discover { scratch } => scratch_for(
                        seqs::views(inputs.granted_scratch()),
                        git,
                    ) == Some(scratch),
                },
            },
            Err(error) => error is LocalSourceNotGranted || error is GitSourceNotGranted || error
                is MissingGitScratch,
        },
{
}

/// A failure at a source.
pub open spec fn source_failure(
    source: LockSource<Seq<char>>,
    error: EngineError<Seq<char>, Seq<u8>>,
) -> LockOperationError<Seq<char>, Seq<u8>> {
    LockOperationError::Source { source_identity: source, source: error }
}

/// Says at which source something failed.
pub fn source_error(source: LockSource, error: EngineError) -> (failure: LockOperationError)
    ensures
        failure@ == source_failure(source@, error@),
{
    LockOperationError::Source { source_identity: source, source: error }
}

/// A step of discovering the pack in a directory; `T` is the type of text and `B` that of
/// paths.
#[derive(Clone, Debug, PartialEq, Eq)]
pub enum LocalStep<T = String, B = Vec<u8>> {
    /// Pin the directory that the locator names, starting at the root pack. The reply is the
    /// path of what was pinned.
    Pin { locator: T, path: B, pinned: u64 },
    /// Capture and publish the pack in the pinned directory. The reply is its path.
    Capture { locator: T, path: B, pinned: u64 },
}

impl View for LocalStep<String, Vec<u8>> {
    type V = LocalStep<Seq<char>, Seq<u8>>;

    open spec fn view(&self) -> LocalStep<Seq<char>, Seq<u8>> {
        match *self {
            LocalStep::Pin { locator, path, pinned } => LocalStep::Pin {
                locator: locator@,
                path: path@,
                pinned,
            },
            LocalStep::Capture { locator, path, pinned } => LocalStep::Capture {
                locator: locator@,
                path: path@,
                pinned,
            },
        }
    }
}

/// The progress of discovering the pack in a directory; what is left at the end is the number
/// of descriptors that are pinned.
pub type LocalModel = Progress<
    LocalStep<Seq<char>, Seq<u8>>,
    u64,
    LockOperationError<Seq<char>, Seq<u8>>,
>;

/// The progress of discovering the pack in a directory, as contracts speak of it.
pub open spec fn local_view(progress: Progress<LocalStep, u64, LockOperationError>) -> LocalModel {
    match progress {
        Progress::Next(step) => Progress::Next(step@),
        Progress::Done(pinned) => Progress::Done(pinned),
        Progress::Failed(error) => Progress::Failed(error@),
    }
}

/// The directory that a locator names, relative to a root pack.
pub open spec fn located_path(root_path: Seq<u8>, locator: Seq<char>) -> Seq<u8> {
    let way = encode_utf8(locator);
    if way == path::current_component() {
        root_path
    } else {
        graph_sources::spelled(
            graph_sources::located(path::components(root_path), capture::locator_components(way)),
        )
    }
}

/// How discovering the pack in a directory starts: its path is normalized, kept apart from the
/// state root, and the descriptors on the way to it are counted, in this order.
pub open spec fn local_start(
    locator: Seq<char>,
    root_path: Seq<u8>,
    state_root: Seq<u8>,
    root_descriptors: int,
    pinned: u64,
    limit: u64,
) -> LocalModel {
    let source = LockSource::Local(locator);
    let located = located_path(root_path, locator);
    let path = path::normalized(located);
    let actual = lock_graph::saturating(
        pinned as int,
        capture::pinned_along(
            root_descriptors,
            capture::locator_components(encode_utf8(locator)),
        ),
        u64::MAX as int,
    );
    if !path::is_absolute(located) {
        Progress::Failed(
            source_failure(
                source,
                capture::capture_failure(
                    located,
                    located,
                    PackCaptureIssue::SourceRootMustBeAbsolute,
                ),
            ),
        )
    } else if path::overlapping(path, state_root) {
        Progress::Failed(
            source_failure(
                source,
                capture::capture_failure(path, path, PackCaptureIssue::ProtectedStateOverlap),
            ),
        )
    } else if actual > limit {
        Progress::Failed(lock_graph::exceeded("pinned source descriptors"@, limit, actual))
    } else {
        Progress::Next(LocalStep::Pin { locator, path, pinned: actual as u64 })
    }
}

/// Starts discovering the pack in a granted directory. `root_descriptors` are pinned on the way
/// to the root pack, and `pinned` ones altogether.
pub fn start_local(
    locator: String,
    root_path: &[u8],
    state_root: &[u8],
    root_descriptors: usize,
    pinned: u64,
    limit: u64,
) -> (progress: Progress<LocalStep, u64, LockOperationError>)
    requires
        root_descriptors + capture::locator_components(encode_utf8(locator@)).len() <= usize::MAX,
    ensures
        local_view(progress) == local_start(
            locator@,
            root_path@,
            state_root@,
            root_descriptors as int,
            pinned,
            limit,
        ),
{
    let located = resolve_locator(root_path, locator.as_str().as_bytes());
    let source_path = match normalize_source_root(located.as_slice()) {
        Ok(path) => path,
        Err(error) => {
            return Progress::Failed(source_error(LockSource::Local(locator), error));
        },
    };
    match reject_lexical_state_overlap(source_path.as_slice(), state_root) {
        Ok(_) => {},
        Err(error) => {
            return Progress::Failed(source_error(LockSource::Local(locator), error));
        },
    }
    let required: usize = resolved_locator_descriptor_count(
        root_descriptors,
        locator.as_str().as_bytes(),
    );
    match charge_descriptors(pinned, required as u64, limit) {
        Ok(actual) => Progress::Next(
            LocalStep::Pin { locator, path: source_path, pinned: actual },
        ),
        Err(error) => Progress::Failed(error),
    }
}

/// How a step that answers with a path went, as contracts speak of it.
pub open spec fn path_reply_view(reply: Result<Vec<u8>, EngineError>) -> Result<
    Seq<u8>,
    EngineError<Seq<char>, Seq<u8>>,
> {
    match reply {
        Ok(path) => Ok(path@),
        Err(error) => Err(error@),
    }
}

/// What follows a step: what was pinned must be at the resolved path before it is captured.
pub open spec fn local_after(
    step: LocalStep<Seq<char>, Seq<u8>>,
    reply: Result<Seq<u8>, EngineError<Seq<char>, Seq<u8>>>,
) -> LocalModel {
    match step {
        LocalStep::Pin { locator, path, pinned } => match reply {
            Err(error) => Progress::Failed(source_failure(LockSource::Local(locator), error)),
            Ok(found) => if path::components(found) == path::components(path) {
                Progress::Next(LocalStep::Capture { locator, path, pinned })
            } else {
                Progress::Failed(
                    source_failure(
                        LockSource::Local(locator),
                        capture::changed_failure(path, path),
                    ),
                )
            },
        },
        LocalStep::Capture { locator, path: _, pinned } => match reply {
            Err(error) => Progress::Failed(source_failure(LockSource::Local(locator), error)),
            Ok(_) => Progress::Done(pinned),
        },
    }
}

impl LocalStep {
    /// Decides what follows this step.
    pub fn after(self, reply: Result<Vec<u8>, EngineError>) -> (progress: Progress<
        LocalStep,
        u64,
        LockOperationError,
    >)
        ensures
            local_view(progress) == local_after(self@, path_reply_view(reply)),
    {
        match self {
            LocalStep::Pin { locator, path, pinned } => match reply {
                Err(error) => Progress::Failed(source_error(LockSource::Local(locator), error)),
                Ok(found) => {
                    if paths_equal(found.as_slice(), path.as_slice()) {
                        return Progress::Next(LocalStep::Capture { locator, path, pinned });
                    }
                    let error = capture_error(
                        path.as_slice(),
                        path.as_slice(),
                        PackCaptureIssue::ObservationChanged,
                    );
                    Progress::Failed(source_error(LockSource::Local(locator), error))
                },
            },
            LocalStep::Capture { locator, path: _, pinned } => match reply {
                Err(error) => Progress::Failed(source_error(LockSource::Local(locator), error)),
                Ok(_) => Progress::Done(pinned),
            },
        }
    }
}

proof fn lemma_descriptors_are_counted(start: int, way: Seq<Seq<u8>>)
    requires
        start >= 0,
    ensures
        capture::pinned_along(start, way) >= 0,
    decreases way.len(),
{
    if way.len() > 0 {
        lemma_descriptors_are_counted(start, way.drop_last());
    }
}

/// A directory is pinned only by an absolute, normalized path apart from the state root and
/// within the bound on descriptors. It is captured only after it was pinned at that path.
pub proof fn lemma_directories_are_pinned_before_capture(
    locator: Seq<char>,
    root_path: Seq<u8>,
    state_root: Seq<u8>,
    root_descriptors: nat,
    pinned: u64,
    limit: u64,
    first: Result<Seq<u8>, EngineError<Seq<char>, Seq<u8>>>,
    second: Result<Seq<u8>, EngineError<Seq<char>, Seq<u8>>>,
)
    ensures
        match local_start(
            locator,
            root_path,
            state_root,
            root_descriptors as int,
            pinned,
            limit,
        ) {
            Progress::Next(step) => step is Pin && step->Pin_locator == locator
                && path::normalized(step->Pin_path) == step->Pin_path && !path::overlapping(
                step->Pin_path,
                state_root,
            ) && step->Pin_pinned <= limit && match local_after(step, first) {
                Progress::Next(next) => next is Capture && first is Ok && path::components(
                    first->Ok_0,
                ) == path::components(next->Capture_path) && next->Capture_path
                    == step->Pin_path && local_after(next, second) !is Next && (local_after(
                    next,
                    second,
                ) is Done ==> second is Ok),
                Progress::Done(_) => false,
                Progress::Failed(_) => true,
            },
            Progress::Done(_) => false,
            Progress::Failed(_) => true,
        },
{
    path::lemma_normalization_is_idempotent(located_path(root_path, locator));
    lemma_descriptors_are_counted(
        root_descriptors as int,
        capture::locator_components(encode_utf8(locator)),
    );
}

/// What loading and verifying the pack that a lock named before showed; `T` is the type of text
/// and `B` that of paths.
#[derive(Debug)]
pub enum CachedLoad<T = String, B = Vec<u8>> {
    /// The pack could not be loaded.
    Failed(EngineError<T, B>),
    /// What was loaded is no pack with the digest.
    Invalid { detail: T },
    /// The pack is there.
    Verified,
}

impl View for CachedLoad<String, Vec<u8>> {
    type V = CachedLoad<Seq<char>, Seq<u8>>;

    open spec fn view(&self) -> CachedLoad<Seq<char>, Seq<u8>> {
        match *self {
            CachedLoad::Failed(error) => CachedLoad::Failed(error@),
            CachedLoad::Invalid { detail } => CachedLoad::Invalid { detail: detail@ },
            CachedLoad::Verified => CachedLoad::Verified,
        }
    }
}

/// The store says that it lacks a pack.
pub open spec fn is_missing_pack(error: EngineError<Seq<char>, Seq<u8>>) -> bool {
    error matches EngineError::PackObject { digest: _, path: _, reason } && reason
        == PackObjectIssue::<Seq<char>>::Missing
}

/// Tells whether the store says that it lacks a pack.
pub fn says_pack_is_missing(error: &EngineError) -> (missing: bool)
    ensures
        missing == is_missing_pack(error@),
{
    match error {
        EngineError::PackObject { digest: _, path: _, reason } => match reason {
            PackObjectIssue::Missing => true,
            _ => false,
        },
        _ => false,
    }
}

/// What a load of the pack that a lock named before comes to, where there is no scratch
/// directory: a pack that the store lacks would have to be fetched.
pub open spec fn cached_outcome(
    source: GitSource<Seq<char>>,
    digest: Seq<char>,
    load: CachedLoad<Seq<char>, Seq<u8>>,
) -> Result<PackObjectPublication, LockOperationError<Seq<char>, Seq<u8>>> {
    match load {
        CachedLoad::Failed(error) => if is_missing_pack(error) {
            Err(LockOperationError::MissingGitScratch { git_source: source })
        } else {
            Err(source_failure(LockSource::Git(source), error))
        },
        CachedLoad::Invalid { detail } => Err(
            LockOperationError::CachedPackInvalid {
                source_identity: LockSource::Git(source),
                digest,
                detail,
            },
        ),
        CachedLoad::Verified => Ok(PackObjectPublication::Reused),
    }
}

/// What came of a pack, as contracts speak of it.
pub open spec fn publication_view(outcome: Result<PackObjectPublication, LockOperationError>) -> Result<
    PackObjectPublication,
    LockOperationError<Seq<char>, Seq<u8>>,
> {
    match outcome {
        Ok(publication) => Ok(publication),
        Err(error) => Err(error@),
    }
}

/// Decides what a load of the pack that a lock named before comes to.
pub fn after_cached_load(source: &GitSource, digest: &str, load: CachedLoad) -> (outcome: Result<
    PackObjectPublication,
    LockOperationError,
>)
    ensures
        publication_view(outcome) == cached_outcome(source@, digest@, load@),
{
    match load {
        CachedLoad::Failed(error) => {
            if says_pack_is_missing(&error) {
                return Err(LockOperationError::MissingGitScratch { git_source: source.copied() });
            }
            Err(source_error(LockSource::Git(source.copied()), error))
        },
        CachedLoad::Invalid { detail } => Err(
            LockOperationError::CachedPackInvalid {
                source_identity: LockSource::Git(source.copied()),
                digest: digest.to_owned(),
                detail,
            },
        ),
        CachedLoad::Verified => Ok(PackObjectPublication::Reused),
    }
}

/// Decides what a fetch of the pack at a Git source comes to.
pub fn after_fetch(source: &GitSource, fetched: Result<PackObjectPublication, EngineError>) -> (outcome:
    Result<PackObjectPublication, LockOperationError>)
    ensures
        publication_view(outcome) == match fetched {
            Ok(publication) => Ok(publication),
            Err(error) => Err(source_failure(LockSource::Git(source@), error@)),
        },
{
    match fetched {
        Ok(publication) => Ok(publication),
        Err(error) => Err(source_error(LockSource::Git(source.copied()), error)),
    }
}

/// What an old lock says of a Git source is found in it: the digest of a pack at that very source,
/// and nothing exactly where no pack is at that source.
pub proof fn lemma_old_digests_are_found(
    nodes: Seq<GraphNode<Seq<char>>>,
    source: GitSource<Seq<char>>,
)
    ensures
        match locked_digest(nodes, source) {
            Some(digest) => exists|i: int|
                0 <= i < nodes.len() && (#[trigger] nodes[i]).source == LockSource::Git(source)
                    && nodes[i].digest == digest,
            None => forall|i: int|
                0 <= i < nodes.len() ==> (#[trigger] nodes[i]).source != LockSource::Git(source),
        },
    decreases nodes.len(),
{
    if nodes.len() > 0 {
        let before = nodes.drop_last();
        lemma_old_digests_are_found(before, source);
        if nodes.last().source == LockSource::Git(source) {
            assert(nodes[nodes.len() - 1].digest == nodes.last().digest);
        } else if let Some(digest) = locked_digest(before, source) {
            let i = choose|i: int|
                0 <= i < before.len() && (#[trigger] before[i]).source == LockSource::Git(source)
                    && before[i].digest == digest;
            assert(nodes[i] == before[i]);
        } else {
            assert forall|i: int| 0 <= i < nodes.len() implies (#[trigger] nodes[i]).source
                != LockSource::Git(source) by {
                if i < before.len() {
                    assert(before[i] == nodes[i]);
                }
            }
        }
    }
}

/// The scratch directory for a Git source is one that was granted for that very source, and there
/// is none exactly where none was granted.
pub proof fn lemma_scratch_is_that_of_the_source(
    list: Seq<SourceScratch<Seq<char>, Seq<u8>>>,
    source: GitSource<Seq<char>>,
)
    ensures
        match scratch_for(list, source) {
            Some(root) => exists|i: int|
                0 <= i < list.len() && (#[trigger] list[i]).source == source && list[i].root
                    == root,
            None => forall|i: int|
                0 <= i < list.len() ==> (#[trigger] list[i]).source != source,
        },
    decreases list.len(),
{
    if list.len() > 0 {
        let before = list.drop_last();
        lemma_scratch_is_that_of_the_source(before, source);
        if list.last().source == source {
            assert(list[list.len() - 1].root == list.last().root);
        } else if let Some(root) = scratch_for(before, source) {
            let i = choose|i: int|
                0 <= i < before.len() && (#[trigger] before[i]).source == source && before[i].root
                    == root;
            assert(list[i] == before[i]);
        } else {
            assert forall|i: int| 0 <= i < list.len() implies (#[trigger] list[i]).source
                != source by {
                if i < before.len() {
                    assert(before[i] == list[i]);
                }
            }
        }
    }
}

/// A pack is obtained exactly where its source is granted and, for a Git source, the old lock
/// knows it or there is a scratch directory for it. A pack that the old lock knows keeps the
/// digest that the lock names, with or without a scratch directory.
pub proof fn lemma_granted_packs_are_obtained(
    inputs: LockResolutionInputs,
    old: Seq<GraphNode<Seq<char>>>,
    source: LockSource<Seq<char>>,
)
    requires
        source !is Root,
    ensures
        source matches LockSource::Local(locator) ==> (way_to_pack(inputs, old, source) is Ok
            <==> seqs::views(inputs.granted_locators()).contains(locator)),
        source matches LockSource::Git(git) ==> {
            let known = exists|i: int|
                0 <= i < old.len() && (#[trigger] old[i]).source == source;
            let list = seqs::views(inputs.granted_scratch());
            let prepared = exists|i: int| 0 <= i < list.len() && (#[trigger] list[i]).source == git;
            let granted = seqs::views(inputs.granted_urls()).contains(git.url);
            &&& way_to_pack(inputs, old, source) is Ok <==> granted && (known || prepared)
            &&& way_to_pack(inputs, old, source) matches Ok(way) ==> match way {
                DependencyWay::Capture { .. } => false,
                DependencyWay::LoadCached { digest } => known && !prepared && exists|i: int|
                    0 <= i < old.len() && (#[trigger] old[i]).source == source && old[i].digest
                        == digest,
                DependencyWay::Acquire { digest, scratch } => prepared && exists|i: int|
                    0 <= i < old.len() && (#[trigger] old[i]).source == source && old[i].digest
                        == digest,
                DependencyWay::Discover { scratch } => !known && prepared,
            }
            &&& !granted ==> (way_to_pack(inputs, old, source)
                matches Err(LockOperationError::GitSourceNotGranted { url }) && url == git.url)
            &&& granted && !known && !prepared ==> (way_to_pack(inputs, old, source)
                matches Err(LockOperationError::MissingGitScratch { git_source }) && git_source
                == git)
        },
{
    if let LockSource::Git(git) = source {
        lemma_old_digests_are_found(old, git);
        lemma_scratch_is_that_of_the_source(seqs::views(inputs.granted_scratch()), git);
    }
}

/// A cached pack counts only once it was loaded and verified, and is then reused. A missing one
/// asks for a scratch directory for its source; every other failure names the source.
pub proof fn lemma_only_verified_packs_are_reused(
    source: GitSource<Seq<char>>,
    digest: Seq<char>,
    load: CachedLoad<Seq<char>, Seq<u8>>,
)
    ensures
        cached_outcome(source, digest, load) is Ok <==> load is Verified,
        cached_outcome(source, digest, load) matches Ok(publication) ==> publication is Reused,
        load matches CachedLoad::Invalid { detail } ==> cached_outcome(source, digest, load)
            matches Err(LockOperationError::CachedPackInvalid {
            source_identity,
            digest: named,
            detail: told,
        }) && source_identity == LockSource::Git(source) && named == digest && told == detail,
        load matches CachedLoad::Failed(EngineError::PackObject {
            digest: _,
            path: _,
            reason: PackObjectIssue::Missing,
        }) ==> cached_outcome(source, digest, load)
            matches Err(LockOperationError::MissingGitScratch { git_source }) && git_source
            == source,
        load matches CachedLoad::Failed(error) ==> is_missing_pack(error) || (cached_outcome(
            source,
            digest,
            load,
        ) matches Err(LockOperationError::Source { source_identity, source: told })
            && source_identity == LockSource::Git(source) && told == error),
{
}

} // verus!
