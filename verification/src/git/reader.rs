//! Reading one committed pack, object by object.
//!
//! The reader asks for one object or one path classification at a time and is handed the
//! answer. It visits trees depth first, rejects every entry that is no regular file or
//! directory, and then collects the files in path order.

use vstd::prelude::*;
use vstd::utf8::*;

use crate::git::issue::GitAcquisitionIssue;
use crate::git::object::{GitObjectFormat, GitObjectKind};
use crate::git::places;
use crate::git::tree;
use crate::git::tree::{
    parse_commit_tree, parse_tree, TraversalBudget, TreeEntry, TreeMode, MAX_GIT_TRAVERSAL_ENTRIES,
    MAX_TOTAL_RAW_TREE_BYTES,
};
use crate::limits::{MAX_PACK_FILE_BYTES, MAX_PACK_TREE_BYTES, MAX_PACK_TREE_ENTRIES};
use crate::ports;
use crate::ports::GitPackFile;
use crate::ports::PackFileModel;
use crate::seqs;
use crate::seqs::{bytes_equal, copy_bytes};
use crate::sort;
use crate::sort::stable_order;
use crate::text;
use crate::text::{concat3, text_equal, utf8_text};

verus! {

/// Most bytes in a commit object.
pub const MAX_COMMIT_BYTES: u64 = 16_777_216;

/// Most bytes in one raw tree object.
pub const MAX_RAW_TREE_BYTES: u64 = 134_217_728;

/// The part of a repository that holds the pack.
#[derive(Debug)]
pub enum PackSubdir {
    /// The whole committed tree.
    Root,
    /// A directory below the committed tree, its name segments in order.
    Path(Vec<String>),
}

/// What the pack rules say of a logical path; `T` is the type of text.
#[derive(Clone, Debug, PartialEq, Eq)]
pub enum PathClass<T = String> {
    /// The path can hold pack content.
    Content,
    /// The path is reserved and no pack content.
    Reserved,
    /// The path is invalid.
    Invalid(T),
}

impl View for PathClass<String> {
    type V = PathClass<Seq<char>>;

    open spec fn view(&self) -> PathClass<Seq<char>> {
        match *self {
            PathClass::Content => PathClass::Content,
            PathClass::Reserved => PathClass::Reserved,
            PathClass::Invalid(detail) => PathClass::Invalid(detail@),
        }
    }
}

/// A tree still to be visited and the path at which it stands.
#[derive(Debug)]
pub struct PendingTree<T = String> {
    pub oid: T,
    pub parent: T,
}

impl View for PendingTree<String> {
    type V = PendingTree<Seq<char>>;

    open spec fn view(&self) -> PendingTree<Seq<char>> {
        PendingTree { oid: self.oid@, parent: self.parent@ }
    }
}

/// A regular file found in a tree.
#[derive(Debug)]
pub struct FoundBlob<T = String> {
    pub path: T,
    pub oid: T,
    pub mode: u32,
}

impl View for FoundBlob<String> {
    type V = FoundBlob<Seq<char>>;

    open spec fn view(&self) -> FoundBlob<Seq<char>> {
        FoundBlob { path: self.path@, oid: self.oid@, mode: self.mode }
    }
}

/// What has been found: trees still to be visited, the next one last, and regular files. Object
/// IDs have one format throughout.
pub struct WalkModel {
    pub format: GitObjectFormat,
    pub budget: TraversalBudget,
    pub stack: Seq<PendingTree<Seq<char>>>,
    pub blobs: Seq<FoundBlob<Seq<char>>>,
}

/// What an awaited object is needed for.
pub enum PurposeModel {
    /// The commit; its tree is then searched for the subdirectory's segments.
    Commit { segments: Seq<Seq<char>> },
    /// A tree in which the segment at `next` is looked up.
    Subdir { segments: Seq<Seq<char>>, next: int },
    /// A tree of the pack, at path `parent`.
    Tree { parent: Seq<char> },
    /// The blob behind the files collected so far.
    Blob {
        blobs: Seq<FoundBlob<Seq<char>>>,
        files: Seq<PackFileModel>,
        total: nat,
    },
}

/// What the reader needs next.
pub enum StepModel {
    /// An object.
    Object {
        oid: Seq<char>,
        kind: GitObjectKind,
        limit: u64,
        walk: WalkModel,
        purpose: PurposeModel,
    },
    /// The class of the path of the entry at `next`.
    Classify {
        path: Seq<char>,
        walk: WalkModel,
        parent: Seq<char>,
        entries: Seq<TreeEntry<Seq<char>, Seq<u8>>>,
        next: int,
    },
    /// Nothing: these are the files.
    Finished { files: Seq<PackFileModel> },
}

/// The lock file at the root of a pack.
pub open spec fn lock_file() -> Seq<char> {
    "malm.lock"@
}

/// Names that are passed over wherever they stand.
pub open spec fn is_skipped_name(name: Seq<u8>) -> bool {
    name == encode_utf8(".git"@) || name == encode_utf8(".malm-lock.tmp"@)
}

/// The logical path of a name below `parent`.
pub open spec fn logical_path(parent: Seq<char>, name: Seq<char>) -> Seq<char> {
    if parent.len() == 0 {
        name
    } else {
        parent + "/"@ + name
    }
}

/// The entries of a tree object, and the budget after reading it.
pub open spec fn tree_read(bytes: Seq<u8>, format: GitObjectFormat, budget: TraversalBudget) -> (
    Result<Seq<TreeEntry<Seq<char>, Seq<u8>>>, GitAcquisitionIssue<Seq<char>>>,
    TraversalBudget,
) {
    let raw = tree::saturating_sum(budget.raw_tree_bytes as nat, bytes.len());
    if raw > MAX_TOTAL_RAW_TREE_BYTES {
        (
            Err(
                GitAcquisitionIssue::RawTreesTooLarge {
                    limit: MAX_TOTAL_RAW_TREE_BYTES,
                    actual: raw as u64,
                },
            ),
            TraversalBudget { entries: budget.entries, raw_tree_bytes: raw as u64 },
        )
    } else {
        (
            tree::parsed_tree(bytes, format, budget.entries as nat),
            TraversalBudget {
                entries: tree::scan_tree(bytes, format, budget.entries as nat).1 as usize,
                raw_tree_bytes: raw as u64,
            },
        )
    }
}

/// The walk after an entry that can hold pack content has been taken in.
pub open spec fn placed(
    walk: WalkModel,
    entry: TreeEntry<Seq<char>, Seq<u8>>,
    path: Seq<char>,
) -> Result<WalkModel, GitAcquisitionIssue<Seq<char>>> {
    match entry.mode {
        TreeMode::Unsupported(mode) => Err(GitAcquisitionIssue::UnsupportedMode { path, mode }),
        TreeMode::Regular(mode) => if walk.blobs.len() == MAX_PACK_TREE_ENTRIES {
            Err(
                GitAcquisitionIssue::TooManyFiles {
                    limit: MAX_PACK_TREE_ENTRIES,
                    actual: (MAX_PACK_TREE_ENTRIES + 1) as usize,
                },
            )
        } else {
            Ok(
                WalkModel {
                    blobs: walk.blobs.push(FoundBlob { path, oid: entry.oid, mode }),
                    ..walk
                },
            )
        },
        _ => if path == lock_file() {
            Err(
                GitAcquisitionIssue::InvalidPath {
                    detail: "tracked root malm.lock must be a regular file"@,
                },
            )
        } else {
            match entry.mode {
                TreeMode::Tree => Ok(
                    WalkModel {
                        stack: walk.stack.push(PendingTree { oid: entry.oid, parent: path }),
                        ..walk
                    },
                ),
                TreeMode::Symlink => Err(GitAcquisitionIssue::SymbolicLink { path }),
                _ => Err(GitAcquisitionIssue::Gitlink { path }),
            }
        },
    }
}

/// The order in which files are collected: by path.
pub open spec fn path_keys(blobs: Seq<FoundBlob<Seq<char>>>) -> Seq<Seq<u8>> {
    blobs.map_values(|blob: FoundBlob<Seq<char>>| encode_utf8(blob.path))
}

/// The stable order of a list of keys.
pub open spec fn stable_order_of(keys: Seq<Seq<u8>>) -> Seq<usize> {
    choose|order: Seq<usize>| sort::is_stable_order(keys, order)
}

/// The files in path order.
pub open spec fn in_path_order(blobs: Seq<FoundBlob<Seq<char>>>) -> Seq<FoundBlob<Seq<char>>> {
    stable_order_of(path_keys(blobs)).map_values(|i: usize| blobs[i as int])
}

/// Asking for the blob behind the files collected so far, or finishing.
pub open spec fn next_blob(
    walk: WalkModel,
    blobs: Seq<FoundBlob<Seq<char>>>,
    files: Seq<PackFileModel>,
    total: nat,
) -> StepModel {
    if files.len() >= blobs.len() {
        StepModel::Finished { files }
    } else {
        StepModel::Object {
            oid: blobs[files.len() as int].oid,
            kind: GitObjectKind::Blob,
            limit: MAX_PACK_FILE_BYTES,
            walk,
            purpose: PurposeModel::Blob { blobs, files, total },
        }
    }
}

/// Asking for the next tree, or for the first blob when no tree is left.
pub open spec fn next_tree(walk: WalkModel) -> StepModel {
    if walk.stack.len() == 0 {
        next_blob(walk, in_path_order(walk.blobs), Seq::empty(), 0)
    } else {
        StepModel::Object {
            oid: walk.stack.last().oid,
            kind: GitObjectKind::Tree,
            limit: MAX_RAW_TREE_BYTES,
            walk: WalkModel { stack: walk.stack.drop_last(), ..walk },
            purpose: PurposeModel::Tree { parent: walk.stack.last().parent },
        }
    }
}

/// Going through the entries of a tree from `next` on, until one needs a classification.
pub open spec fn next_entry(
    walk: WalkModel,
    parent: Seq<char>,
    entries: Seq<TreeEntry<Seq<char>, Seq<u8>>>,
    next: int,
) -> Result<StepModel, GitAcquisitionIssue<Seq<char>>>
    decreases entries.len() - next,
{
    if next >= entries.len() {
        Ok(next_tree(walk))
    } else {
        let entry = entries[next];
        let path = logical_path(parent, decode_utf8(entry.name));
        if is_skipped_name(entry.name) {
            next_entry(walk, parent, entries, next + 1)
        } else if !valid_utf8(entry.name) {
            Err(
                GitAcquisitionIssue::NonUtf8Name {
                    parent: if parent.len() == 0 {
                        None
                    } else {
                        Some(parent)
                    },
                },
            )
        } else if path == lock_file() && entry.mode !is Unsupported {
            match placed(walk, entry, path) {
                Err(issue) => Err(issue),
                Ok(after) => next_entry(after, parent, entries, next + 1),
            }
        } else {
            Ok(StepModel::Classify { path, walk, parent, entries, next })
        }
    }
}

/// The pack's root tree is the next to be visited.
pub open spec fn walk_from(
    format: GitObjectFormat,
    budget: TraversalBudget,
    oid: Seq<char>,
) -> StepModel {
    next_tree(
        WalkModel {
            format,
            budget,
            stack: seq![PendingTree { oid, parent: Seq::empty() }],
            blobs: Seq::empty(),
        },
    )
}

/// Looking up the segment at `next` in the tree `oid`, or visiting that tree when every
/// segment has been found.
pub open spec fn descend(
    format: GitObjectFormat,
    budget: TraversalBudget,
    oid: Seq<char>,
    segments: Seq<Seq<char>>,
    next: int,
) -> StepModel {
    if next >= segments.len() {
        walk_from(format, budget, oid)
    } else {
        StepModel::Object {
            oid,
            kind: GitObjectKind::Tree,
            limit: MAX_RAW_TREE_BYTES,
            walk: WalkModel { format, budget, stack: Seq::empty(), blobs: Seq::empty() },
            purpose: PurposeModel::Subdir { segments, next },
        }
    }
}

/// The position of the first entry with the given name, or the number of entries.
pub open spec fn named_entry(
    entries: Seq<TreeEntry<Seq<char>, Seq<u8>>>,
    name: Seq<u8>,
) -> int {
    seqs::first_index_of(
        entries.map_values(|entry: TreeEntry<Seq<char>, Seq<u8>>| entry.name),
        name,
    )
}

/// What the reader needs after the object it asked for has been delivered.
pub open spec fn after_object(
    walk: WalkModel,
    purpose: PurposeModel,
    bytes: Seq<u8>,
) -> Result<StepModel, GitAcquisitionIssue<Seq<char>>> {
    let format = walk.format;
    match purpose {
        PurposeModel::Commit { segments } => match tree::commit_tree(bytes, format) {
            Err(issue) => Err(issue),
            Ok(oid) => Ok(descend(format, walk.budget, oid, segments, 0)),
        },
        PurposeModel::Subdir { segments, next } => {
            let (read, budget) = tree_read(bytes, format, walk.budget);
            match read {
                Err(issue) => Err(issue),
                Ok(entries) => {
                    let found = named_entry(entries, encode_utf8(segments[next]));
                    if found >= entries.len() {
                        Err(
                            GitAcquisitionIssue::MissingSubdir {
                                subdir: seqs::join_with(segments, '/'),
                            },
                        )
                    } else if entries[found].mode !is Tree {
                        Err(
                            GitAcquisitionIssue::SubdirNotTree {
                                path: seqs::join_with(segments.take(next + 1), '/'),
                                mode: tree::mode_spelling(entries[found].mode),
                            },
                        )
                    } else {
                        Ok(descend(format, budget, entries[found].oid, segments, next + 1))
                    }
                },
            }
        },
        PurposeModel::Tree { parent } => {
            let (read, budget) = tree_read(bytes, format, walk.budget);
            match read {
                Err(issue) => Err(issue),
                Ok(entries) => next_entry(WalkModel { budget, ..walk }, parent, entries, 0),
            }
        },
        PurposeModel::Blob { blobs, files, total } => {
            let sum = tree::saturating_sum(total, bytes.len());
            let blob = blobs[files.len() as int];
            if sum > MAX_PACK_TREE_BYTES {
                Err(
                    GitAcquisitionIssue::TreeTooLarge {
                        limit: MAX_PACK_TREE_BYTES,
                        actual: sum as u64,
                    },
                )
            } else {
                Ok(
                    next_blob(
                        walk,
                        blobs,
                        files.push(PackFileModel { path: blob.path, bytes, mode: blob.mode }),
                        sum,
                    ),
                )
            }
        },
    }
}

/// What the reader needs after the path of the entry at `next` has been classified. The lock is
/// asked about only where its mode is not supported, and is then never passed over.
pub open spec fn after_class(
    walk: WalkModel,
    parent: Seq<char>,
    entries: Seq<TreeEntry<Seq<char>, Seq<u8>>>,
    next: int,
    path: Seq<char>,
    class: PathClass,
) -> Result<StepModel, GitAcquisitionIssue<Seq<char>>> {
    match class {
        PathClass::Invalid(detail) => Err(GitAcquisitionIssue::InvalidPath { detail: detail@ }),
        PathClass::Reserved if path != lock_file() => next_entry(walk, parent, entries, next + 1),
        _ => match placed(walk, entries[next], path) {
            Err(issue) => Err(issue),
            Ok(after) => next_entry(after, parent, entries, next + 1),
        },
    }
}

/// Files in path order, each path once, at most so many and with at most so many bytes as a
/// pack may have, each with a committed mode.
pub open spec fn is_collected(files: Seq<PackFileModel>) -> bool {
    &&& files.len() <= MAX_PACK_TREE_ENTRIES
    &&& byte_count(files) <= MAX_PACK_TREE_BYTES
    &&& forall|i: int| 0 <= i < files.len() ==> ports::is_normalized_mode(#[trigger] files[i].mode)
    &&& forall|i: int, j: int|
        0 <= i < j < files.len() ==> seqs::bytes_less(
            encode_utf8(#[trigger] files[i].path),
            encode_utf8(#[trigger] files[j].path),
        )
}

/// The bytes of all files together.
pub open spec fn byte_count(files: Seq<PackFileModel>) -> nat
    decreases files.len(),
{
    if files.len() == 0 {
        0
    } else {
        byte_count(files.drop_last()) + files.last().bytes.len()
    }
}

/// What has been found so far.
struct Walk {
    format: GitObjectFormat,
    budget: TraversalBudget,
    stack: Vec<PendingTree>,
    blobs: Vec<FoundBlob>,
}

impl Walk {
    spec fn model(&self) -> WalkModel {
        WalkModel {
            format: self.format,
            budget: self.budget,
            stack: seqs::views(self.stack@),
            blobs: seqs::views(self.blobs@),
        }
    }

    spec fn valid(&self) -> bool {
        &&& self.budget.entries <= MAX_GIT_TRAVERSAL_ENTRIES
        &&& self.blobs@.len() <= MAX_PACK_TREE_ENTRIES
        &&& forall|i: int|
            0 <= i < self.blobs@.len() ==> ports::is_normalized_mode(
                #[trigger] self.blobs@[i].mode,
            )
    }
}

/// What an awaited object is needed for.
enum Purpose {
    Commit { segments: Vec<String> },
    Subdir { segments: Vec<String>, next: usize },
    Tree { parent: String },
    Blob { blobs: Vec<FoundBlob>, files: Vec<GitPackFile>, total: u64 },
}

impl Purpose {
    spec fn model(&self) -> PurposeModel {
        match *self {
            Purpose::Commit { segments } => PurposeModel::Commit {
                segments: seqs::views(segments@),
            },
            Purpose::Subdir { segments, next } => PurposeModel::Subdir {
                segments: seqs::views(segments@),
                next: next as int,
            },
            Purpose::Tree { parent } => PurposeModel::Tree { parent: parent@ },
            Purpose::Blob { blobs, files, total } => PurposeModel::Blob {
                blobs: seqs::views(blobs@),
                files: seqs::views(files@),
                total: total as nat,
            },
        }
    }

    spec fn valid(&self) -> bool {
        match *self {
            Purpose::Commit { segments } => true,
            Purpose::Subdir { segments, next } => next < segments@.len(),
            Purpose::Tree { parent } => true,
            Purpose::Blob { blobs, files, total } => {
                &&& files@.len() < blobs@.len() <= MAX_PACK_TREE_ENTRIES
                &&& total <= MAX_PACK_TREE_BYTES
                &&& total == byte_count(seqs::views(files@))
                &&& forall|i: int|
                    0 <= i < blobs@.len() ==> ports::is_normalized_mode(#[trigger] blobs@[i].mode)
                &&& forall|i: int, j: int|
                    0 <= i < j < blobs@.len() ==> seqs::bytes_less(
                        encode_utf8(#[trigger] blobs@[i].path@),
                        encode_utf8(#[trigger] blobs@[j].path@),
                    )
                &&& forall|i: int|
                    0 <= i < files@.len() ==> (#[trigger] files@[i])@.path == blobs@[i].path@
                        && files@[i]@.mode == blobs@[i].mode
            },
        }
    }
}

/// A reader that waits for an object.
pub struct ObjectWait {
    oid: String,
    kind: GitObjectKind,
    limit: u64,
    walk: Walk,
    purpose: Purpose,
}

/// A reader that waits for the class of a path.
pub struct ClassWait {
    walk: Walk,
    parent: String,
    entries: Vec<TreeEntry>,
    next: usize,
    path: String,
}

/// What the reader needs next.
pub enum ReadStep {
    /// An object.
    Object(ObjectWait),
    /// The class of a logical path.
    Classify(ClassWait),
    /// Nothing: these are the pack's files.
    Finished(Vec<GitPackFile>),
}

impl ReadStep {
    /// What the step says.
    pub open spec fn model(&self) -> StepModel {
        match *self {
            ReadStep::Object(reader) => reader.model(),
            ReadStep::Classify(reader) => reader.model(),
            ReadStep::Finished(files) => StepModel::Finished { files: seqs::views(files@) },
        }
    }
}

/// The outcome of a transition is what was expected; finished files are collected files.
pub open spec fn outcome_is(
    outcome: Result<ReadStep, GitAcquisitionIssue>,
    expected: Result<StepModel, GitAcquisitionIssue<Seq<char>>>,
) -> bool {
    match outcome {
        Ok(step) => {
            &&& expected == Ok::<StepModel, GitAcquisitionIssue<Seq<char>>>(step.model())
            &&& step.model() matches StepModel::Finished { files } ==> is_collected(files)
        },
        Err(issue) => expected == Err::<StepModel, GitAcquisitionIssue<Seq<char>>>(issue@),
    }
}

/// The requested commit, and what it is needed for.
pub open spec fn first_step(
    format: GitObjectFormat,
    oid: Seq<char>,
    segments: Seq<Seq<char>>,
) -> StepModel {
    StepModel::Object {
        oid,
        kind: GitObjectKind::Commit,
        limit: MAX_COMMIT_BYTES,
        walk: WalkModel {
            format,
            budget: TraversalBudget { entries: 0, raw_tree_bytes: 0 },
            stack: Seq::empty(),
            blobs: Seq::empty(),
        },
        purpose: PurposeModel::Commit { segments },
    }
}

/// The segments of a subdirectory, none for the whole tree.
pub open spec fn subdir_segments(subdir: PackSubdir) -> Seq<Seq<char>> {
    match subdir {
        PackSubdir::Root => Seq::empty(),
        PackSubdir::Path(segments) => seqs::views(segments@),
    }
}

/// Starts reading the pack that a commit holds.
pub fn read_pack(format: GitObjectFormat, commit_oid: String, subdir: PackSubdir) -> (step:
    ReadStep)
    ensures
        step.model() == first_step(format, commit_oid@, subdir_segments(subdir)),
{
    let segments = match subdir {
        PackSubdir::Root => Vec::new(),
        PackSubdir::Path(segments) => segments,
    };
    proof {
        assert(seqs::views(segments@) =~= subdir_segments(subdir));
    }
    let walk = Walk {
        format,
        budget: TraversalBudget::fresh(),
        stack: Vec::new(),
        blobs: Vec::new(),
    };
    proof {
        assert(seqs::views(walk.stack@) =~= Seq::<PendingTree<Seq<char>>>::empty());
        assert(seqs::views(walk.blobs@) =~= Seq::<FoundBlob<Seq<char>>>::empty());
    }
    ReadStep::Object(
        ObjectWait {
            oid: commit_oid,
            kind: GitObjectKind::Commit,
            limit: MAX_COMMIT_BYTES,
            walk,
            purpose: Purpose::Commit { segments },
        },
    )
}

fn read_tree(bytes: &[u8], format: GitObjectFormat, budget: &mut TraversalBudget) -> (entries:
    Result<Vec<TreeEntry>, GitAcquisitionIssue>)
    requires
        old(budget).entries <= MAX_GIT_TRAVERSAL_ENTRIES,
    ensures
        final(budget).entries <= MAX_GIT_TRAVERSAL_ENTRIES,
        *final(budget) == tree_read(bytes@, format, *old(budget)).1,
        match entries {
            Ok(entries) => {
                &&& tree_read(bytes@, format, *old(budget)).0 == Ok::<
                    Seq<TreeEntry<Seq<char>, Seq<u8>>>,
                    GitAcquisitionIssue<Seq<char>>,
                >(seqs::views(entries@))
                &&& forall|i: int|
                    0 <= i < entries@.len() ==> tree::is_committed_mode(
                        (#[trigger] entries@[i]).mode,
                    )
                &&& tree::names_distinct(seqs::views(entries@))
                &&& tree::names_are_leaves(seqs::views(entries@))
            },
            Err(issue) => tree_read(bytes@, format, *old(budget)).0 == Err::<
                Seq<TreeEntry<Seq<char>, Seq<u8>>>,
                GitAcquisitionIssue<Seq<char>>,
            >(issue@),
        },
{
    match budget.charge_tree(bytes.len()) {
        Ok(()) => {},
        Err(issue) => {
            return Err(issue);
        },
    }
    proof {
        tree::lemma_scanned_names(bytes@, format, budget.entries as nat);
    }
    parse_tree(bytes, format, budget)
}

fn place(walk: Walk, entry: &TreeEntry, path: &str) -> (after: Result<Walk, GitAcquisitionIssue>)
    requires
        walk.valid(),
        tree::is_committed_mode(entry.mode),
    ensures
        match after {
            Ok(after) => after.valid() && placed(walk.model(), entry@, path@) == Ok::<
                WalkModel,
                GitAcquisitionIssue<Seq<char>>,
            >(after.model()),
            Err(issue) => placed(walk.model(), entry@, path@) == Err::<
                WalkModel,
                GitAcquisitionIssue<Seq<char>>,
            >(issue@),
        },
{
    let mut walk = walk;
    match &entry.mode {
        TreeMode::Unsupported(mode) => {
            return Err(
                GitAcquisitionIssue::UnsupportedMode { path: path.to_owned(), mode: mode.clone() },
            );
        },
        TreeMode::Regular(mode) => {
            if walk.blobs.len() == MAX_PACK_TREE_ENTRIES {
                return Err(
                    GitAcquisitionIssue::TooManyFiles {
                        limit: MAX_PACK_TREE_ENTRIES,
                        actual: MAX_PACK_TREE_ENTRIES + 1,
                    },
                );
            }
            let ghost before = walk.blobs@;
            let blob = FoundBlob { path: path.to_owned(), oid: entry.oid.clone(), mode: *mode };
            walk.blobs.push(blob);
            proof {
                assert(seqs::views(walk.blobs@) =~= seqs::views(before).push(blob@));
            }
            return Ok(walk);
        },
        _ => {},
    }
    if text_equal(path, "malm.lock") {
        return Err(
            GitAcquisitionIssue::InvalidPath {
                detail: "tracked root malm.lock must be a regular file".to_owned(),
            },
        );
    }
    match &entry.mode {
        TreeMode::Tree => {
            let ghost before = walk.stack@;
            let pending = PendingTree { oid: entry.oid.clone(), parent: path.to_owned() };
            walk.stack.push(pending);
            proof {
                assert(seqs::views(walk.stack@) =~= seqs::views(before).push(pending@));
            }
            Ok(walk)
        },
        TreeMode::Symlink => Err(GitAcquisitionIssue::SymbolicLink { path: path.to_owned() }),
        _ => Err(GitAcquisitionIssue::Gitlink { path: path.to_owned() }),
    }
}

/// Puts found files in path order.
fn order_by_path(blobs: Vec<FoundBlob>) -> (ordered: Vec<FoundBlob>)
    requires
        forall|i: int|
            0 <= i < blobs@.len() ==> ports::is_normalized_mode(#[trigger] blobs@[i].mode),
        forall|i: int, j: int|
            0 <= i < j < blobs@.len() ==> (#[trigger] seqs::views(blobs@)[i]).path != (
            #[trigger] seqs::views(blobs@)[j]).path,
    ensures
        seqs::views(ordered@) == in_path_order(seqs::views(blobs@)),
        ordered@.len() == blobs@.len(),
        forall|i: int, j: int|
            0 <= i < j < ordered@.len() ==> seqs::bytes_less(
                encode_utf8(#[trigger] ordered@[i].path@),
                encode_utf8(#[trigger] ordered@[j].path@),
            ),
        forall|i: int|
            0 <= i < ordered@.len() ==> ports::is_normalized_mode(#[trigger] ordered@[i].mode),
{
    let ghost models = seqs::views(blobs@);
    let mut keys: Vec<Vec<u8>> = Vec::new();
    let mut i: usize = 0;
    while i < blobs.len()
        invariant
            i <= blobs.len(),
            keys.len() == i,
            models == seqs::views(blobs@),
            forall|k: int| 0 <= k < i ==> (#[trigger] keys@[k])@ == path_keys(models)[k],
        decreases blobs.len() - i,
    {
        keys.push(copy_bytes(blobs[i].path.as_str().as_bytes()));
        i = i + 1;
    }
    let order = stable_order(&keys);
    proof {
        assert(seqs::views(keys@) =~= path_keys(models));
        assert(sort::is_stable_order(path_keys(models), order@));
        sort::lemma_stable_order_unique(
            path_keys(models),
            order@,
            stable_order_of(path_keys(models)),
        );
    }
    let mut ordered: Vec<FoundBlob> = Vec::new();
    let mut j: usize = 0;
    while j < order.len()
        invariant
            j <= order.len(),
            order.len() == blobs.len(),
            models == seqs::views(blobs@),
            sort::is_stable_order(path_keys(models), order@),
            ordered.len() == j,
            forall|k: int|
                0 <= k < j ==> (#[trigger] ordered@[k])@ == models[order@[k] as int]
                    && ordered@[k].mode == blobs@[order@[k] as int].mode,
        decreases order.len() - j,
    {
        let at: usize = order[j];
        let blob = &blobs[at];
        ordered.push(
            FoundBlob { path: blob.path.clone(), oid: blob.oid.clone(), mode: blob.mode },
        );
        j = j + 1;
    }
    proof {
        assert(seqs::views(ordered@) =~= in_path_order(models));
        assert forall|a: int, b: int| 0 <= a < b < ordered@.len() implies seqs::bytes_less(
            encode_utf8(#[trigger] ordered@[a].path@),
            encode_utf8(#[trigger] ordered@[b].path@),
        ) by {
            let keys = path_keys(models);
            let x = order@[a] as int;
            let y = order@[b] as int;
            assert(sort::precedes(keys, order@[a] as int, order@[b] as int));
            assert(ordered@[a]@.path == models[x].path);
            assert(ordered@[b]@.path == models[y].path);
            assert(keys[x] == encode_utf8(ordered@[a].path@));
            assert(keys[y] == encode_utf8(ordered@[b].path@));
            if keys[x] == keys[y] {
                seqs::lemma_bytes_less_irreflexive(keys[x]);
                text::lemma_encoding_injective(models[x].path, models[y].path);
                assert(models[x].path != models[y].path);
            }
        }
        assert forall|a: int| 0 <= a < ordered@.len() implies ports::is_normalized_mode(
            #[trigger] ordered@[a].mode,
        ) by {
            assert(ordered@[a].mode == blobs@[order@[a] as int].mode);
        }
    }
    ordered
}

fn go_to_blob(
    walk: Walk,
    blobs: Vec<FoundBlob>,
    files: Vec<GitPackFile>,
    total: u64,
) -> (step: ReadStep)
    requires
        walk.valid(),
        files@.len() <= blobs@.len() <= MAX_PACK_TREE_ENTRIES,
        files@.len() < blobs@.len() ==> (Purpose::Blob { blobs, files, total }).valid(),
        is_collected(seqs::views(files@)),
    ensures
        step.model() == next_blob(
            walk.model(),
            seqs::views(blobs@),
            seqs::views(files@),
            total as nat,
        ),
        step.model() matches StepModel::Finished { files } ==> is_collected(files),
{
    if files.len() == blobs.len() {
        return ReadStep::Finished(files);
    }
    let oid = blobs[files.len()].oid.clone();
    proof {
        assert(seqs::views(blobs@)[files@.len() as int] == blobs@[files@.len() as int]@);
    }
    ReadStep::Object(
        ObjectWait {
            oid,
            kind: GitObjectKind::Blob,
            limit: MAX_PACK_FILE_BYTES,
            walk,
            purpose: Purpose::Blob { blobs, files, total },
        },
    )
}

fn go_to_tree(walk: Walk) -> (step: ReadStep)
    requires
        walk.valid(),
        places::are_apart(walk.model()),
    ensures
        step.model() == next_tree(walk.model()),
        step.model() matches StepModel::Finished { files } ==> is_collected(files),
{
    let mut walk = walk;
    let ghost model = walk.model();
    match walk.stack.pop() {
        Some(pending) => {
            proof {
                assert(seqs::views(walk.stack@) =~= model.stack.drop_last());
                assert(model.stack.last() == pending@);
                let top = model.stack.len() - 1;
                assert(places::keeps_apart(walk.model(), pending.parent@)) by {
                    assert(model.stack[top] == pending@);
                    assert forall|i: int| 0 <= i < top implies !places::is_within(
                        #[trigger] walk.model().stack[i].parent,
                        pending.parent@,
                    ) && !places::is_within(pending.parent@, walk.model().stack[i].parent) by {
                        assert(walk.model().stack[i] == model.stack[i]);
                        assert(!places::is_within(model.stack[i].parent, model.stack[top].parent));
                        assert(!places::is_within(model.stack[top].parent, model.stack[i].parent));
                    }
                    assert forall|k: int|
                        0 <= k < walk.model().blobs.len() implies !places::is_within(
                        pending.parent@,
                        #[trigger] walk.model().blobs[k].path,
                    ) by {
                        assert(!places::is_within(model.stack[top].parent, model.blobs[k].path));
                    }
                }
                assert(places::are_apart(walk.model())) by {
                    assert forall|i: int, j: int|
                        0 <= i < top && 0 <= j < top && i != j implies !places::is_within(
                        #[trigger] walk.model().stack[i].parent,
                        #[trigger] walk.model().stack[j].parent,
                    ) by {
                        assert(!places::is_within(model.stack[i].parent, model.stack[j].parent));
                    }
                    assert forall|i: int, k: int|
                        0 <= i < top && 0 <= k < model.blobs.len() implies !places::is_within(
                        #[trigger] walk.model().stack[i].parent,
                        #[trigger] walk.model().blobs[k].path,
                    ) by {
                        assert(!places::is_within(model.stack[i].parent, model.blobs[k].path));
                    }
                }
            }
            ReadStep::Object(
                ObjectWait {
                    oid: pending.oid,
                    kind: GitObjectKind::Tree,
                    limit: MAX_RAW_TREE_BYTES,
                    walk,
                    purpose: Purpose::Tree { parent: pending.parent },
                },
            )
        },
        None => {
            proof {
                assert(seqs::views(walk.stack@) =~= model.stack);
            }
            let blobs = clone_blobs(&walk.blobs);
            let ordered = order_by_path(blobs);
            let files: Vec<GitPackFile> = Vec::new();
            proof {
                assert(seqs::views(files@) =~= Seq::<PackFileModel>::empty());
                assert(byte_count(seqs::views(files@)) == 0);
            }
            go_to_blob(walk, ordered, files, 0)
        },
    }
}

fn clone_blobs(blobs: &Vec<FoundBlob>) -> (copies: Vec<FoundBlob>)
    ensures
        seqs::views(copies@) == seqs::views(blobs@),
        copies@.len() == blobs@.len(),
        forall|i: int| 0 <= i < copies@.len() ==> (#[trigger] copies@[i]).mode == blobs@[i].mode,
{
    let mut copies: Vec<FoundBlob> = Vec::new();
    let mut i: usize = 0;
    while i < blobs.len()
        invariant
            i <= blobs.len(),
            copies.len() == i,
            forall|k: int|
                0 <= k < i ==> (#[trigger] copies@[k])@ == blobs@[k]@ && copies@[k].mode
                    == blobs@[k].mode,
        decreases blobs.len() - i,
    {
        let blob = &blobs[i];
        copies.push(
            FoundBlob { path: blob.path.clone(), oid: blob.oid.clone(), mode: blob.mode },
        );
        i = i + 1;
    }
    assert(seqs::views(copies@) =~= seqs::views(blobs@));
    copies
}

fn go_to_entry(
    found: Walk,
    parent: String,
    entries: Vec<TreeEntry>,
    start: usize,
) -> (outcome: Result<ReadStep, GitAcquisitionIssue>)
    requires
        found.valid(),
        start <= entries@.len(),
        places::entries_apart(found.model(), parent@, seqs::views(entries@), start as int),
        forall|i: int|
            0 <= i < entries@.len() ==> tree::is_committed_mode((#[trigger] entries@[i]).mode),
    ensures
        outcome_is(
            outcome,
            next_entry(found.model(), parent@, seqs::views(entries@), start as int),
        ),
{
    let ghost first = found.model();
    let ghost models = seqs::views(entries@);
    let mut walk = found;
    let mut next: usize = start;
    while next < entries.len()
        invariant
            walk.valid(),
            first == found.model(),
            next <= entries.len(),
            models == seqs::views(entries@),
            places::entries_apart(walk.model(), parent@, models, next as int),
            forall|i: int|
                0 <= i < entries@.len() ==> tree::is_committed_mode((#[trigger] entries@[i]).mode),
            next_entry(first, parent@, models, start as int) == next_entry(
                walk.model(),
                parent@,
                models,
                next as int,
            ),
        decreases entries.len() - next,
    {
        let name = entries[next].name.as_slice();
        proof {
            assert(models[next as int] == entries@[next as int]@);
        }
        if bytes_equal(name, ".git".as_bytes()) || bytes_equal(
            name,
            ".malm-lock.tmp".as_bytes(),
        ) {
            next = next + 1;
            continue;
        }
        let decoded = match utf8_text(name) {
            Some(decoded) => decoded,
            None => {
                let at = if parent.as_str().is_empty() {
                    None
                } else {
                    Some(parent)
                };
                return Err(GitAcquisitionIssue::NonUtf8Name { parent: at });
            },
        };
        proof {
            encode_utf8_decode_utf8(decoded@);
        }
        let path = if parent.as_str().is_empty() {
            decoded
        } else {
            concat3(parent.as_str(), "/", decoded.as_str())
        };
        let supported = match &entries[next].mode {
            TreeMode::Unsupported(_) => false,
            _ => true,
        };
        if supported && text_equal(path.as_str(), "malm.lock") {
            let ghost before = walk.model();
            walk = match place(walk, &entries[next], path.as_str()) {
                Ok(after) => {
                    proof {
                        places::lemma_entry_placed(
                            before,
                            parent@,
                            models,
                            next as int,
                            after.model(),
                        );
                    }
                    after
                },
                Err(issue) => {
                    return Err(issue);
                },
            };
            next = next + 1;
        } else {
            return Ok(
                ReadStep::Classify(ClassWait { walk, parent, entries, next, path }),
            );
        }
    }
    Ok(go_to_tree(walk))
}

fn go_down(
    format: GitObjectFormat,
    budget: TraversalBudget,
    oid: String,
    segments: Vec<String>,
    next: usize,
) -> (step: ReadStep)
    requires
        budget.entries <= MAX_GIT_TRAVERSAL_ENTRIES,
        next <= segments@.len(),
    ensures
        step.model() == descend(format, budget, oid@, seqs::views(segments@), next as int),
        step.model() matches StepModel::Finished { files } ==> is_collected(files),
{
    let mut walk = Walk { format, budget, stack: Vec::new(), blobs: Vec::new() };
    proof {
        assert(seqs::views(walk.stack@) =~= Seq::<PendingTree<Seq<char>>>::empty());
        assert(seqs::views(walk.blobs@) =~= Seq::<FoundBlob<Seq<char>>>::empty());
    }
    if next == segments.len() {
        let root = PendingTree { oid, parent: String::new() };
        walk.stack.push(root);
        proof {
            assert(seqs::views(walk.stack@) =~= seq![PendingTree {
                oid: oid@,
                parent: Seq::<char>::empty(),
            }]);
        }
        return go_to_tree(walk);
    }
    ReadStep::Object(
        ObjectWait {
            oid,
            kind: GitObjectKind::Tree,
            limit: MAX_RAW_TREE_BYTES,
            walk,
            purpose: Purpose::Subdir { segments, next },
        },
    )
}

fn find_entry(entries: &Vec<TreeEntry>, name: &[u8]) -> (found: usize)
    ensures
        found == named_entry(seqs::views(entries@), name@),
        found <= entries@.len(),
{
    let ghost names = seqs::views(entries@).map_values(
        |entry: TreeEntry<Seq<char>, Seq<u8>>| entry.name,
    );
    let mut i: usize = 0;
    proof {
        assert(names.skip(0) =~= names);
    }
    while i < entries.len()
        invariant
            i <= entries.len(),
            names == seqs::views(entries@).map_values(
                |entry: TreeEntry<Seq<char>, Seq<u8>>| entry.name,
            ),
            seqs::first_index_of(names, name@) == i + seqs::first_index_of(
                names.skip(i as int),
                name@,
            ),
        decreases entries.len() - i,
    {
        proof {
            assert(names[i as int] == entries@[i as int].name@);
            assert(names.skip(i as int)[0] == names[i as int]);
        }
        if bytes_equal(entries[i].name.as_slice(), name) {
            return i;
        }
        proof {
            assert(names.skip(i as int).skip(1) =~= names.skip(i + 1));
        }
        i = i + 1;
    }
    i
}

/// Joins segments with `/`.
pub fn join_segments(segments: &Vec<String>, count: usize) -> (path: String)
    requires
        count <= segments@.len(),
    ensures
        path@ == seqs::join_with(seqs::views(segments@).take(count as int), '/'),
{
    let ghost all = seqs::views(segments@);
    let mut path = String::new();
    let mut i: usize = 0;
    proof {
        assert(all.take(0) =~= Seq::<Seq<char>>::empty());
    }
    while i < count
        invariant
            i <= count <= segments@.len(),
            all == seqs::views(segments@),
            path@ == seqs::join_with(all.take(i as int), '/'),
        decreases count - i,
    {
        proof {
            assert(all.take(i + 1).drop_last() =~= all.take(i as int));
            assert(all.take(i + 1).last() == segments@[i as int]@);
        }
        let ghost before = path@;
        if i > 0 {
            path.push('/');
        }
        path.append(segments[i].as_str());
        proof {
            if i == 0 {
                assert(path@ =~= segments@[0]@);
            }
        }
        i = i + 1;
    }
    path
}

impl ObjectWait {
    /// What the reader waits for, and what it has found.
    pub closed spec fn model(&self) -> StepModel {
        StepModel::Object {
            oid: self.oid@,
            kind: self.kind,
            limit: self.limit,
            walk: self.walk.model(),
            purpose: self.purpose.model(),
        }
    }

    #[verifier::type_invariant]
    spec fn well_formed(&self) -> bool {
        &&& self.walk.valid()
        &&& self.purpose.valid()
        &&& self.purpose matches Purpose::Tree { parent } ==> places::are_apart(self.walk.model())
            && places::keeps_apart(self.walk.model(), parent@)
    }

    /// Returns the object ID that the reader waits for.
    pub fn oid(&self) -> (oid: &str)
        ensures
            self.model() matches StepModel::Object { oid: wanted, .. } && oid@ == wanted,
    {
        self.oid.as_str()
    }

    /// Returns the kind of the object that the reader waits for.
    pub fn kind(&self) -> (kind: GitObjectKind)
        ensures
            self.model() matches StepModel::Object { kind: wanted, .. } && kind == wanted,
    {
        self.kind
    }

    /// Returns how many bytes the awaited object may have.
    pub fn limit(&self) -> (limit: u64)
        ensures
            self.model() matches StepModel::Object { limit: wanted, .. } && limit == wanted,
    {
        self.limit
    }

    /// Hands over the object that the reader waits for.
    pub fn deliver(self, bytes: Vec<u8>) -> (outcome: Result<ReadStep, GitAcquisitionIssue>)
        ensures
            self.model() matches StepModel::Object { walk, purpose, .. } && outcome_is(
                outcome,
                after_object(walk, purpose, bytes@),
            ),
    {
        proof {
            use_type_invariant(&self);
        }
        let format = self.walk.format;
        let mut walk = self.walk;
        match self.purpose {
            Purpose::Commit { segments } => match parse_commit_tree(bytes.as_slice(), format) {
                Ok(oid) => Ok(go_down(format, walk.budget, oid, segments, 0)),
                Err(issue) => Err(issue),
            },
            Purpose::Subdir { segments, next } => {
                let entries = match read_tree(bytes.as_slice(), format, &mut walk.budget) {
                    Ok(entries) => entries,
                    Err(issue) => {
                        return Err(issue);
                    },
                };
                let ghost models = seqs::views(entries@);
                let count: usize = segments.len();
                let found: usize = find_entry(&entries, segments[next].as_str().as_bytes());
                proof {
                    assert(seqs::views(segments@)[next as int] == segments@[next as int]@);
                }
                if found == entries.len() {
                    proof {
                        assert(seqs::views(segments@).take(segments@.len() as int) =~= seqs::views(
                            segments@,
                        ));
                    }
                    return Err(
                        GitAcquisitionIssue::MissingSubdir {
                            subdir: join_segments(&segments, count),
                        },
                    );
                }
                proof {
                    assert(models[found as int] == entries@[found as int]@);
                }
                match &entries[found].mode {
                    TreeMode::Tree => {},
                    _ => {
                        return Err(
                            GitAcquisitionIssue::SubdirNotTree {
                                path: join_segments(&segments, next + 1),
                                mode: entries[found].mode.as_str().to_owned(),
                            },
                        );
                    },
                }
                Ok(go_down(format, walk.budget, entries[found].oid.clone(), segments, next + 1))
            },
            Purpose::Tree { parent } => {
                let entries = match read_tree(bytes.as_slice(), format, &mut walk.budget) {
                    Ok(entries) => entries,
                    Err(issue) => {
                        return Err(issue);
                    },
                };
                proof {
                    places::lemma_tree_entered(walk.model(), parent@, seqs::views(entries@));
                }
                go_to_entry(walk, parent, entries, 0)
            },
            Purpose::Blob { blobs, files, total } => {
                let ghost before = seqs::views(files@);
                let sum: u64 = total.saturating_add(bytes.len() as u64);
                if sum > MAX_PACK_TREE_BYTES {
                    return Err(
                        GitAcquisitionIssue::TreeTooLarge {
                            limit: MAX_PACK_TREE_BYTES,
                            actual: sum,
                        },
                    );
                }
                let at: usize = files.len();
                let mode: u32 = blobs[at].mode;
                let path = blobs[at].path.clone();
                let mut files = files;
                match GitPackFile::with_mode(path, bytes, mode) {
                    Ok(file) => {
                        files.push(file);
                        proof {
                            let model = PackFileModel {
                                path: seqs::views(blobs@)[at as int].path,
                                bytes: bytes@,
                                mode,
                            };
                            assert(seqs::views(blobs@)[at as int] == blobs@[at as int]@);
                            assert(file@ == model);
                            assert(seqs::views(files@) =~= before.push(model));
                            assert(before.push(model).drop_last() =~= before);
                            assert(byte_count(seqs::views(files@)) == sum);
                            lemma_collected(blobs@, files@);
                        }
                        Ok(go_to_blob(walk, blobs, files, sum))
                    },
                    Err(_) => {
                        proof {
                            assert(false);
                        }
                        Ok(ReadStep::Finished(files))
                    },
                }
            },
        }
    }
}

/// Files that follow blobs in path order are in path order.
proof fn lemma_collected(blobs: Seq<FoundBlob>, files: Seq<GitPackFile>)
    requires
        files.len() <= blobs.len() <= MAX_PACK_TREE_ENTRIES,
        byte_count(seqs::views(files)) <= MAX_PACK_TREE_BYTES,
        forall|i: int| 0 <= i < blobs.len() ==> ports::is_normalized_mode(#[trigger] blobs[i].mode),
        forall|i: int, j: int|
            0 <= i < j < blobs.len() ==> seqs::bytes_less(
                encode_utf8(#[trigger] blobs[i].path@),
                encode_utf8(#[trigger] blobs[j].path@),
            ),
        forall|i: int|
            0 <= i < files.len() ==> (#[trigger] files[i])@.path == blobs[i].path@ && files[i]@.mode
                == blobs[i].mode,
    ensures
        is_collected(seqs::views(files)),
{
    let models = seqs::views(files);
    assert forall|i: int| 0 <= i < models.len() implies ports::is_normalized_mode(
        #[trigger] models[i].mode,
    ) by {
        assert(models[i] == files[i]@);
        assert(ports::is_normalized_mode(blobs[i].mode));
    }
    assert forall|i: int, j: int| 0 <= i < j < models.len() implies seqs::bytes_less(
        encode_utf8(#[trigger] models[i].path),
        encode_utf8(#[trigger] models[j].path),
    ) by {
        assert(models[i] == files[i]@);
        assert(models[j] == files[j]@);
        assert(seqs::bytes_less(encode_utf8(blobs[i].path@), encode_utf8(blobs[j].path@)));
    }
}

impl ClassWait {
    /// What the reader waits for, and what it has found.
    pub closed spec fn model(&self) -> StepModel {
        StepModel::Classify {
            path: self.path@,
            walk: self.walk.model(),
            parent: self.parent@,
            entries: seqs::views(self.entries@),
            next: self.next as int,
        }
    }

    #[verifier::type_invariant]
    spec fn well_formed(&self) -> bool {
        &&& self.walk.valid()
        &&& self.next < self.entries.len()
        &&& places::entries_apart(
            self.walk.model(),
            self.parent@,
            seqs::views(self.entries@),
            self.next as int,
        )
        &&& valid_utf8(self.entries@[self.next as int].name@)
        &&& self.path@ == places::entry_path(
            self.parent@,
            seqs::views(self.entries@)[self.next as int],
        )
        &&& forall|i: int|
            0 <= i < self.entries@.len() ==> tree::is_committed_mode(
                (#[trigger] self.entries@[i]).mode,
            )
    }

    /// Returns the path whose class the reader waits for.
    pub fn path(&self) -> (path: &str)
        ensures
            self.model() matches StepModel::Classify { path: wanted, .. } && path@ == wanted,
    {
        self.path.as_str()
    }

    /// Hands over the class that the reader waits for.
    pub fn answer(self, class: PathClass) -> (outcome: Result<ReadStep, GitAcquisitionIssue>)
        ensures
            self.model() matches StepModel::Classify { path, walk, parent, entries, next }
                && outcome_is(
                outcome,
                after_class(walk, parent, entries, next, path, class),
            ),
    {
        proof {
            use_type_invariant(&self);
            assert(seqs::views(self.entries@)[self.next as int] == self.entries@[self.next as int]@);
        }
        match class {
            PathClass::Invalid(detail) => Err(GitAcquisitionIssue::InvalidPath { detail }),
            PathClass::Reserved if !text_equal(self.path.as_str(), "malm.lock") => go_to_entry(
                self.walk,
                self.parent,
                self.entries,
                self.next + 1,
            ),
            _ => match place(
                self.walk,
                &self.entries[self.next],
                self.path.as_str(),
            ) {
                Ok(after) => {
                    proof {
                        places::lemma_entry_placed(
                            self.walk.model(),
                            self.parent@,
                            seqs::views(self.entries@),
                            self.next as int,
                            after.model(),
                        );
                    }
                    go_to_entry(after, self.parent, self.entries, self.next + 1)
                },
                Err(issue) => Err(issue),
            },
        }
    }
}

} // verus!
