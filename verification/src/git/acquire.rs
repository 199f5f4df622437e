//! Acquiring a pack from an exact Git commit.

use vstd::prelude::*;

use crate::error::{EngineError, GitSource, PackCaptureIssue, PackObjectIssue};
use crate::git::issue::{GitAcquisitionIssue, GitCommandStage};
use crate::limits::MAX_PACK_MANIFEST_BYTES;
use crate::ports::{GitPackFile, PackFileModel};
use crate::seqs;
use crate::seqs::copy_bytes;
use crate::stat;
use crate::stat::{EntryKind, FileStat, HostFailure, PERMISSION_MASK};
use crate::state_root;
use crate::store_steps;
use crate::text::text_equal;

verus! {

/// Path of a pack's manifest.
pub open spec fn manifest_file() -> Seq<char> {
    "malm-pack.kdl"@
}

/// Path of a pack's lock.
pub open spec fn lock_file() -> Seq<char> {
    "malm.lock"@
}

/// A failed acquisition.
pub open spec fn git_failure(
    git_source: GitSource<Seq<char>>,
    scratch_root: Seq<u8>,
    reason: GitAcquisitionIssue<Seq<char>>,
) -> EngineError<Seq<char>, Seq<u8>> {
    EngineError::GitAcquisition { git_source, scratch_root, reason }
}

/// Describes a failed acquisition.
pub fn git_error(
    git_source: &GitSource,
    scratch_root: &[u8],
    reason: GitAcquisitionIssue,
) -> (error: EngineError)
    ensures
        error@ == git_failure(git_source@, scratch_root@, reason@),
{
    EngineError::GitAcquisition {
        git_source: git_source.copied(),
        scratch_root: copy_bytes(scratch_root),
        reason,
    }
}

/// The place of the first file with a path, or the number of files.
pub open spec fn file_index(files: Seq<PackFileModel>, path: Seq<char>) -> int
    decreases files.len(),
{
    if files.len() == 0 {
        0
    } else {
        let before = file_index(files.drop_last(), path);
        if before < files.len() - 1 || files.last().path == path {
            before
        } else {
            files.len() as int
        }
    }
}

/// The manifest by which a tree may be narrowed: the first file of that name, unless it is too
/// large to be one.
pub open spec fn usable_manifest(files: Seq<PackFileModel>) -> Option<int> {
    let index = file_index(files, manifest_file());
    if index < files.len() && files[index].bytes.len() <= MAX_PACK_MANIFEST_BYTES {
        Some(index)
    } else {
        None
    }
}

proof fn lemma_file_index(files: Seq<PackFileModel>, path: Seq<char>)
    ensures
        0 <= file_index(files, path) <= files.len(),
        file_index(files, path) < files.len() ==> files[file_index(files, path)].path == path,
        forall|k: int| 0 <= k < file_index(files, path) ==> (#[trigger] files[k]).path != path,
    decreases files.len(),
{
    if files.len() > 0 {
        let head = files.drop_last();
        lemma_file_index(head, path);
        assert forall|k: int| 0 <= k < file_index(files, path) implies (#[trigger] files[k]).path
            != path by {
            if k < head.len() {
                assert(head[k] == files[k]);
            }
        }
    }
}

/// Finds the manifest by which a tree may be narrowed.
pub fn find_usable_manifest(files: &Vec<GitPackFile>) -> (index: Option<usize>)
    ensures
        match usable_manifest(seqs::views(files@)) {
            Some(i) => index matches Some(found) && found == i && i < files@.len(),
            None => index is None,
        },
{
    let ghost all = seqs::views(files@);
    proof {
        lemma_file_index(all, manifest_file());
        assert(all.len() == files@.len());
    }
    let mut i: usize = 0;
    while i < files.len()
        invariant
            i <= files.len(),
            all == seqs::views(files@),
            all.len() == files@.len(),
            i <= file_index(all, manifest_file()) <= all.len(),
            file_index(all, manifest_file()) < all.len() ==> all[file_index(
                all,
                manifest_file(),
            )].path == manifest_file(),
            forall|k: int|
                0 <= k < file_index(all, manifest_file()) ==> (#[trigger] all[k]).path
                    != manifest_file(),
        decreases files.len() - i,
    {
        assert(all[i as int] == files@[i as int]@);
        if text_equal(files[i].path(), "malm-pack.kdl") {
            if files[i].bytes().len() <= MAX_PACK_MANIFEST_BYTES {
                return Some(i);
            }
            return None;
        }
        i = i + 1;
    }
    None
}

/// What a usable manifest says of the files of its tree.
#[derive(Debug)]
pub struct DeclaredCapture {
    /// The manifest declares capture roots.
    pub declares_roots: bool,
    /// For each file, in their order, whether the manifest covers its path.
    pub covers: Vec<bool>,
}

/// The files that a manifest with capture roots keeps, in order: the lock and what it covers.
pub open spec fn narrowed(files: Seq<PackFileModel>, covers: Seq<bool>) -> Seq<PackFileModel>
    decreases files.len(),
{
    if files.len() == 0 {
        Seq::empty()
    } else {
        let before = narrowed(files.drop_last(), covers);
        if files.last().path == lock_file() || covers[files.len() - 1] {
            before.push(files.last())
        } else {
            before
        }
    }
}

/// Narrows an acquired Git tree to the capture roots its manifest declares.
///
/// Local capture prunes paths that are not captured during its walk, so this must narrow the
/// same way. Without a usable manifest, or where it declares no roots, nothing is narrowed.
pub fn narrow_to_capture_roots(
    files: Vec<GitPackFile>,
    declared: Option<DeclaredCapture>,
) -> (kept: Vec<GitPackFile>)
    requires
        declared matches Some(capture) ==> capture.covers@.len() == files@.len(),
    ensures
        seqs::views(kept@) == match declared {
            None => seqs::views(files@),
            Some(capture) => if capture.declares_roots {
                narrowed(seqs::views(files@), capture.covers@)
            } else {
                seqs::views(files@)
            },
        },
{
    let capture = match declared {
        Some(capture) => capture,
        None => {
            return files;
        },
    };
    if !capture.declares_roots {
        return files;
    }
    let ghost all = seqs::views(files@);
    let mut kept: Vec<GitPackFile> = Vec::new();
    let count: usize = capture.covers.len();
    let mut place: usize = 0;
    let ghost originals = files@;
    proof {
        assert(all.take(0) =~= Seq::<PackFileModel>::empty());
        assert(seqs::views(kept@) =~= narrowed(all.take(0), capture.covers@));
    }
    for file in it: files.into_iter()
        invariant
            all == seqs::views(originals),
            it.seq() == originals,
            place == it.index(),
            count == capture.covers@.len(),
            capture.covers@.len() == originals.len(),
            seqs::views(kept@) == narrowed(all.take(it.index()), capture.covers@),
    {
        let ghost before = kept@;
        proof {
            assert(file == originals[it.index()]);
            assert(all[it.index()] == file@);
            assert(all.take(it.index() + 1).drop_last() =~= all.take(it.index()));
            assert(all.take(it.index() + 1).last() == file@);
        }
        if text_equal(file.path(), "malm.lock") || capture.covers[place] {
            let ghost model = file@;
            kept.push(file);
            proof {
                assert(seqs::views(kept@) =~= seqs::views(before).push(model));
            }
        }
        place = place + 1;
    }
    proof {
        assert(all.take(all.len() as int) =~= all);
    }
    kept
}

/// What a manifest that covers these paths says of some files.
pub open spec fn answers(
    files: Seq<PackFileModel>,
    covers: spec_fn(Seq<char>) -> bool,
) -> Seq<bool> {
    files.map_values(|file: PackFileModel| covers(file.path))
}

/// Only the answers for the files themselves count.
proof fn lemma_narrowed_prefix(files: Seq<PackFileModel>, left: Seq<bool>, right: Seq<bool>)
    requires
        files.len() <= left.len(),
        files.len() <= right.len(),
        forall|i: int| 0 <= i < files.len() ==> #[trigger] left[i] == right[i],
    ensures
        narrowed(files, left) == narrowed(files, right),
    decreases files.len(),
{
    if files.len() > 0 {
        lemma_narrowed_prefix(files.drop_last(), left, right);
    }
}

/// Narrowing keeps the lock and every covered file, keeps nothing else, and narrowing once
/// more changes nothing, whatever paths the manifest covers.
pub proof fn lemma_narrowing_keeps_what_is_covered(
    files: Seq<PackFileModel>,
    covers: spec_fn(Seq<char>) -> bool,
)
    ensures
        forall|file: PackFileModel| #[trigger]
            narrowed(files, answers(files, covers)).contains(file) <==> files.contains(file) && (
            file.path == lock_file() || covers(file.path)),
        narrowed(
            narrowed(files, answers(files, covers)),
            answers(narrowed(files, answers(files, covers)), covers),
        ) == narrowed(files, answers(files, covers)),
    decreases files.len(),
{
    let kept = narrowed(files, answers(files, covers));
    if files.len() > 0 {
        let head = files.drop_last();
        let last = files.last();
        lemma_narrowing_keeps_what_is_covered(head, covers);
        lemma_narrowed_prefix(head, answers(files, covers), answers(head, covers));
        let before = narrowed(head, answers(head, covers));
        let stays = last.path == lock_file() || covers(last.path);
        assert(files =~= head.push(last));
        assert forall|file: PackFileModel| #[trigger] kept.contains(file) <==> files.contains(file)
            && (file.path == lock_file() || covers(file.path)) by {
            assert(before.contains(file) <==> head.contains(file) && (file.path == lock_file()
                || covers(file.path)));
            lemma_push_contains(head, last, file);
            if stays {
                lemma_push_contains(before, last, file);
            }
        }
        if stays {
            assert(kept =~= before.push(last));
            assert(kept.drop_last() =~= before);
            lemma_narrowed_prefix(before, answers(kept, covers), answers(before, covers));
        }
    } else {
        assert(narrowed(kept, answers(kept, covers)) =~= kept);
    }
}

proof fn lemma_push_contains(items: Seq<PackFileModel>, last: PackFileModel, file: PackFileModel)
    ensures
        items.push(last).contains(file) <==> items.contains(file) || file == last,
{
    let all = items.push(last);
    if items.contains(file) {
        let i = choose|i: int| 0 <= i < items.len() && items[i] == file;
        assert(all[i] == file);
    }
    if file == last {
        assert(all[items.len() as int] == file);
    }
    if all.contains(file) {
        let i = choose|i: int| 0 <= i < all.len() && all[i] == file;
        if i < items.len() {
            assert(items[i] == file);
        }
    }
}

/// What makes a scratch directory unusable, if anything; the first problem counts.
pub open spec fn scratch_problem(stat: FileStat, user: u32) -> Option<
    GitAcquisitionIssue<Seq<char>>,
> {
    if stat::kind_of(stat.mode) != EntryKind::Directory {
        Some(GitAcquisitionIssue::ScratchRootNotDirectory)
    } else if stat.uid != user {
        Some(
            GitAcquisitionIssue::ScratchRootWrongOwner {
                expected_uid: user,
                actual_uid: stat.uid,
            },
        )
    } else if stat.mode & PERMISSION_MASK != 0o700 {
        Some(
            GitAcquisitionIssue::ScratchRootUnexpectedMode {
                expected: 0o700,
                actual: stat.mode & PERMISSION_MASK,
            },
        )
    } else {
        None
    }
}

/// Checks a scratch directory before it is listed.
pub fn validate_scratch(
    observed: Result<FileStat, HostFailure>,
    git_source: &GitSource,
    scratch_root: &[u8],
    expected_user_id: u32,
) -> (checked: Result<(), EngineError>)
    ensures
        state_root::check_is(
            checked,
            match stat::observation_view(observed) {
                Err(failure) => Err(
                    git_failure(
                        git_source@,
                        scratch_root@,
                        GitAcquisitionIssue::ProcessIo {
                            stage: GitCommandStage::Initialize,
                            operation: "inspect scratch root"@,
                            detail: failure.detail,
                        },
                    ),
                ),
                Ok(stat) => match scratch_problem(stat, expected_user_id) {
                    Some(reason) => Err(git_failure(git_source@, scratch_root@, reason)),
                    None => Ok(()),
                },
            },
        ),
{
    let stat = match observed {
        Ok(stat) => stat,
        Err(failure) => {
            return Err(
                git_error(
                    git_source,
                    scratch_root,
                    GitAcquisitionIssue::ProcessIo {
                        stage: GitCommandStage::Initialize,
                        operation: "inspect scratch root".to_owned(),
                        detail: failure.detail,
                    },
                ),
            );
        },
    };
    let mode: u32 = stat.permissions();
    let reason = if stat.kind() != EntryKind::Directory {
        GitAcquisitionIssue::ScratchRootNotDirectory
    } else if stat.uid != expected_user_id {
        GitAcquisitionIssue::ScratchRootWrongOwner {
            expected_uid: expected_user_id,
            actual_uid: stat.uid,
        }
    } else if mode != 0o700 {
        GitAcquisitionIssue::ScratchRootUnexpectedMode { expected: 0o700, actual: mode }
    } else {
        return Ok(());
    };
    Err(git_error(git_source, scratch_root, reason))
}

/// Entries other than `.` and `..`.
pub open spec fn has_other_entries(names: Seq<Seq<u8>>) -> bool {
    exists|i: int|
        0 <= i < names.len() && #[trigger] names[i] != seq![46u8] && names[i] != seq![46u8, 46u8]
}

/// Requires that a scratch directory is empty, given the names in it.
pub fn require_empty_scratch(
    names: &Vec<Vec<u8>>,
    git_source: &GitSource,
    scratch_root: &[u8],
) -> (checked: Result<(), EngineError>)
    ensures
        state_root::check_is(
            checked,
            if has_other_entries(seqs::views(names@)) {
                Err(
                    git_failure(
                        git_source@,
                        scratch_root@,
                        GitAcquisitionIssue::ScratchRootNotEmpty,
                    ),
                )
            } else {
                Ok(())
            },
        ),
{
    let ghost all = seqs::views(names@);
    let mut i: usize = 0;
    while i < names.len()
        invariant
            i <= names.len(),
            all == seqs::views(names@),
            forall|k: int|
                0 <= k < i ==> #[trigger] all[k] == seq![46u8] || all[k] == seq![46u8, 46u8],
        decreases names.len() - i,
    {
        let name = names[i].as_slice();
        let dot = name.len() == 1 && name[0] == 46;
        let dots = name.len() == 2 && name[0] == 46 && name[1] == 46;
        proof {
            assert(all[i as int] == name@);
            if dot {
                assert(name@ =~= seq![46u8]);
            }
            if dots {
                assert(name@ =~= seq![46u8, 46u8]);
            }
        }
        if !dot && !dots {
            assert(all[i as int] != seq![46u8] && all[i as int] != seq![46u8, 46u8]);
            return Err(
                git_error(git_source, scratch_root, GitAcquisitionIssue::ScratchRootNotEmpty),
            );
        }
        i = i + 1;
    }
    Ok(())
}

/// What a problem with the scratch directory means for the acquisition.
pub open spec fn scratch_reason(reason: PackCaptureIssue<Seq<char>>) -> GitAcquisitionIssue<
    Seq<char>,
> {
    match reason {
        PackCaptureIssue::SourceRootMustBeAbsolute => GitAcquisitionIssue::ScratchRootMustBeAbsolute,
        PackCaptureIssue::SourceRootMissing => GitAcquisitionIssue::ScratchRootMissing,
        PackCaptureIssue::SourceRootNotDirectory => GitAcquisitionIssue::ScratchRootNotDirectory,
        PackCaptureIssue::SymbolicLink => GitAcquisitionIssue::ScratchRootSymbolicLink,
        PackCaptureIssue::ProtectedStateOverlap => GitAcquisitionIssue::ProtectedStateOverlap,
        _ => GitAcquisitionIssue::ScratchRootObservationChanged,
    }
}

/// Turns a problem with the scratch directory into a failure of the acquisition; other
/// failures stay as they are.
pub fn map_scratch_error(
    git_source: &GitSource,
    scratch_root: &[u8],
    error: EngineError,
) -> (mapped: EngineError)
    ensures
        mapped@ == match error@ {
            EngineError::PackCapture { reason, .. } => git_failure(
                git_source@,
                scratch_root@,
                scratch_reason(reason),
            ),
            other => other,
        },
{
    match error {
        EngineError::PackCapture { reason, .. } => {
            let mapped = match reason {
                PackCaptureIssue::SourceRootMustBeAbsolute =>
                    GitAcquisitionIssue::ScratchRootMustBeAbsolute,
                PackCaptureIssue::SourceRootMissing => GitAcquisitionIssue::ScratchRootMissing,
                PackCaptureIssue::SourceRootNotDirectory =>
                    GitAcquisitionIssue::ScratchRootNotDirectory,
                PackCaptureIssue::SymbolicLink => GitAcquisitionIssue::ScratchRootSymbolicLink,
                PackCaptureIssue::ProtectedStateOverlap =>
                    GitAcquisitionIssue::ProtectedStateOverlap,
                _ => GitAcquisitionIssue::ScratchRootObservationChanged,
            };
            git_error(git_source, scratch_root, mapped)
        },
        other => other,
    }
}

/// Requires that an acquired tree has the locked digest, where one is locked.
pub fn require_digest(
    expected: Option<&str>,
    actual: &str,
    git_source: &GitSource,
    scratch_root: &[u8],
) -> (checked: Result<(), EngineError>)
    ensures
        state_root::check_is(
            checked,
            match expected {
                Some(locked) => if locked@ == actual@ {
                    Ok(())
                } else {
                    Err(
                        git_failure(
                            git_source@,
                            scratch_root@,
                            GitAcquisitionIssue::DigestMismatch {
                                expected: locked@,
                                actual: actual@,
                            },
                        ),
                    )
                },
                None => Ok(()),
            },
        ),
{
    match expected {
        None => Ok(()),
        Some(locked) => {
            if text_equal(locked, actual) {
                Ok(())
            } else {
                Err(
                    git_error(
                        git_source,
                        scratch_root,
                        GitAcquisitionIssue::DigestMismatch {
                            expected: locked.to_owned(),
                            actual: actual.to_owned(),
                        },
                    ),
                )
            }
        },
    }
}

/// What the attempt to load a cached pack means: a missing one is acquired, any other failure
/// is reported.
pub open spec fn cache_reply(loaded: Result<bool, EngineError<Seq<char>, Seq<u8>>>) -> Result<
    bool,
    EngineError<Seq<char>, Seq<u8>>,
> {
    match loaded {
        Ok(_) => Ok(true),
        Err(error) => if error matches EngineError::PackObject { reason, .. } && reason is Missing {
            Ok(false)
        } else {
            Err(error)
        },
    }
}

/// Decides what the attempt to load a cached pack means.
pub fn cached_or_missing(loaded: Result<bool, EngineError>) -> (cached: Result<bool, EngineError>)
    ensures
        store_steps::reply_view(cached) == cache_reply(store_steps::reply_view(loaded)),
{
    let error = match loaded {
        Ok(_) => {
            return Ok(true);
        },
        Err(error) => error,
    };
    let missing = match &error {
        EngineError::PackObject { reason, .. } => match reason {
            PackObjectIssue::Missing => true,
            _ => false,
        },
        _ => false,
    };
    if missing {
        Ok(false)
    } else {
        Err(error)
    }
}

/// The manifest of a pack is its first file of that name, where it is small enough to be read.
pub proof fn lemma_manifest_is_found_by_its_name(files: Seq<PackFileModel>)
    ensures
        match usable_manifest(files) {
            Some(index) => 0 <= index < files.len() && files[index].path == "malm-pack.kdl"@
                && files[index].bytes.len() <= MAX_PACK_MANIFEST_BYTES,
            None => forall|i: int|
                0 <= i < files.len() && (#[trigger] files[i]).path == "malm-pack.kdl"@ ==> exists|
                    k: int,
                |
                    0 <= k <= i && (#[trigger] files[k]).path == "malm-pack.kdl"@
                        && files[k].bytes.len() > MAX_PACK_MANIFEST_BYTES,
        },
{
    lemma_file_index(files, "malm-pack.kdl"@);
    let index = file_index(files, manifest_file());
    if usable_manifest(files) is None {
        assert forall|i: int|
            0 <= i < files.len() && (#[trigger] files[i]).path == "malm-pack.kdl"@ implies exists|
            k: int,
        |
            0 <= k <= i && (#[trigger] files[k]).path == "malm-pack.kdl"@ && files[k].bytes.len()
                > MAX_PACK_MANIFEST_BYTES by {
            assert(index <= i);
            assert(files[index].path == "malm-pack.kdl"@);
        }
    }
}

/// A scratch directory is used exactly where it is a directory, belongs to the user and is private
/// to that user.
pub proof fn lemma_only_private_scratch_is_used(stat: FileStat, user: u32)
    ensures
        scratch_problem(stat, user) is None <==> stat::kind_of(stat.mode) == EntryKind::Directory
            && stat.uid == user && stat.mode & PERMISSION_MASK == 0o700,
{
}

/// A pack counts as cached exactly where it was loaded, and as missing exactly where the store
/// says so; every other failure stays a failure.
pub proof fn lemma_only_missing_packs_are_acquired(
    loaded: Result<bool, EngineError<Seq<char>, Seq<u8>>>,
)
    ensures
        cache_reply(loaded) matches Ok(true) <==> loaded is Ok,
        cache_reply(loaded) matches Ok(false) <==> (loaded matches Err(EngineError::PackObject {
            digest: _,
            path: _,
            reason,
        }) && reason is Missing),
        cache_reply(loaded) is Err ==> cache_reply(loaded) == loaded,
{
}

} // verus!
