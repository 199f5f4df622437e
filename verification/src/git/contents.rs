//! Which files a committed pack holds, and that reading it gives exactly these.

use vstd::prelude::*;
use vstd::utf8::*;

use crate::git::issue::GitAcquisitionIssue;
use crate::git::object::GitObjectFormat;
use crate::git::reader;
use crate::git::reader::{FoundBlob, PathClass, PendingTree, PurposeModel, StepModel, WalkModel};
use crate::git::tree;
use crate::git::tree::{TreeEntry, TreeMode};
use crate::limits::MAX_PACK_TREE_ENTRIES;
use crate::ports::PackFileModel;
use crate::seqs;
use crate::sort;

verus! {

/// What a repository holds and what the pack rules say of its paths.
pub struct Repository {
    pub format: GitObjectFormat,
    pub objects: Map<Seq<char>, Seq<u8>>,
    pub classes: Map<Seq<char>, PathClass>,
}

/// The entries of a tree of the repository, where it is one.
pub open spec fn tree_entries(repository: Repository, oid: Seq<char>) -> Option<
    Seq<TreeEntry<Seq<char>, Seq<u8>>>,
> {
    match tree::parsed_tree(repository.objects[oid], repository.format, 0) {
        Ok(entries) => Some(entries),
        Err(_) => None,
    }
}

/// The path of an entry in a tree that stands at `parent`.
pub open spec fn place_of(parent: Seq<char>, entry: TreeEntry<Seq<char>, Seq<u8>>) -> Seq<char> {
    if parent.len() == 0 {
        decode_utf8(entry.name)
    } else {
        parent + "/"@ + decode_utf8(entry.name)
    }
}

/// An entry belongs to the pack: it has no name of the tools, and its path is not reserved. The
/// lock of the pack belongs to it.
pub open spec fn belongs(
    repository: Repository,
    parent: Seq<char>,
    entry: TreeEntry<Seq<char>, Seq<u8>>,
) -> bool {
    &&& entry.name != encode_utf8(".git"@)
    &&& entry.name != encode_utf8(".malm-lock.tmp"@)
    &&& place_of(parent, entry) == "malm.lock"@ || repository.classes[place_of(parent, entry)]
        !is Reserved
}

/// A file lies at most so many trees below a tree that stands at `parent`: it is a regular entry
/// of that tree, or lies below a tree entry of it.
pub open spec fn lies_below(
    repository: Repository,
    oid: Seq<char>,
    parent: Seq<char>,
    file: PackFileModel,
    depth: nat,
) -> bool
    decreases depth,
{
    tree_entries(repository, oid) matches Some(entries) && exists|k: int|
        0 <= k < entries.len() && belongs(repository, parent, #[trigger] entries[k])
            && match entries[k].mode {
            TreeMode::Regular(mode) => file == (PackFileModel {
                path: place_of(parent, entries[k]),
                bytes: repository.objects[entries[k].oid],
                mode,
            }),
            TreeMode::Tree => depth > 0 && lies_below(
                repository,
                entries[k].oid,
                place_of(parent, entries[k]),
                file,
                (depth - 1) as nat,
            ),
            _ => false,
        }
}

/// A file lies below a tree that stands at `parent`.
pub open spec fn is_below(
    repository: Repository,
    oid: Seq<char>,
    parent: Seq<char>,
    file: PackFileModel,
) -> bool {
    exists|depth: nat| lies_below(repository, oid, parent, file, depth)
}

/// The names of directories lead from one tree to another.
pub open spec fn leads_to(
    repository: Repository,
    oid: Seq<char>,
    segments: Seq<Seq<char>>,
    found: Seq<char>,
) -> bool
    decreases segments.len(),
{
    if segments.len() == 0 {
        oid == found
    } else {
        tree_entries(repository, oid) matches Some(entries) && exists|k: int|
            0 <= k < entries.len() && (#[trigger] entries[k]).name == encode_utf8(segments[0])
                && entries[k].mode is Tree && leads_to(
                repository,
                entries[k].oid,
                segments.skip(1),
                found,
            )
    }
}

/// A file lies below the tree that the names of directories lead to.
pub open spec fn is_below_directory(
    repository: Repository,
    oid: Seq<char>,
    segments: Seq<Seq<char>>,
    file: PackFileModel,
) -> bool {
    exists|root: Seq<char>|
        #[trigger] leads_to(repository, oid, segments, root) && is_below(
            repository,
            root,
            Seq::empty(),
            file,
        )
}

/// A file of the pack that a commit holds in a directory.
pub open spec fn is_pack_file(
    repository: Repository,
    commit: Seq<char>,
    segments: Seq<Seq<char>>,
    file: PackFileModel,
) -> bool {
    tree::commit_tree(repository.objects[commit], repository.format) matches Ok(top)
        && is_below_directory(repository, top, segments, file)
}

/// The reader after so many answers from a repository, unless one of them failed.
pub open spec fn answered(repository: Repository, step: StepModel, count: nat) -> Result<
    StepModel,
    GitAcquisitionIssue<Seq<char>>,
>
    decreases count,
{
    if count == 0 {
        Ok(step)
    } else {
        let next = match step {
            StepModel::Object { oid, kind: _, limit: _, walk, purpose } => reader::after_object(
                walk,
                purpose,
                repository.objects[oid],
            ),
            StepModel::Classify { path, walk, parent, entries, next } => reader::after_class(
                walk,
                parent,
                entries,
                next,
                path,
                repository.classes[path],
            ),
            StepModel::Finished { files } => Ok(step),
        };
        match next {
            Err(issue) => Err(issue),
            Ok(after) => answered(repository, after, (count - 1) as nat),
        }
    }
}

/// A file comes from an entry of a tree that stands at `parent`.
spec fn comes_from(
    repository: Repository,
    parent: Seq<char>,
    entry: TreeEntry<Seq<char>, Seq<u8>>,
    file: PackFileModel,
) -> bool {
    belongs(repository, parent, entry) && match entry.mode {
        TreeMode::Regular(mode) => file == (PackFileModel {
            path: place_of(parent, entry),
            bytes: repository.objects[entry.oid],
            mode,
        }),
        TreeMode::Tree => is_below(repository, entry.oid, place_of(parent, entry), file),
        _ => false,
    }
}

spec fn comes_from_rest(
    repository: Repository,
    parent: Seq<char>,
    entries: Seq<TreeEntry<Seq<char>, Seq<u8>>>,
    next: int,
    file: PackFileModel,
) -> bool {
    exists|k: int|
        next <= k < entries.len() && comes_from(repository, parent, #[trigger] entries[k], file)
}

spec fn is_blob(
    repository: Repository,
    blob: FoundBlob<Seq<char>>,
    file: PackFileModel,
) -> bool {
    file == (PackFileModel {
        path: blob.path,
        bytes: repository.objects[blob.oid],
        mode: blob.mode,
    })
}

spec fn is_found(
    repository: Repository,
    blobs: Seq<FoundBlob<Seq<char>>>,
    from: int,
    file: PackFileModel,
) -> bool {
    exists|k: int| from <= k < blobs.len() && is_blob(repository, #[trigger] blobs[k], file)
}

spec fn is_pending(
    repository: Repository,
    stack: Seq<PendingTree<Seq<char>>>,
    file: PackFileModel,
) -> bool {
    exists|k: int|
        0 <= k < stack.len() && is_below(
            repository,
            (#[trigger] stack[k]).oid,
            stack[k].parent,
            file,
        )
}

spec fn is_walked(repository: Repository, walk: WalkModel, file: PackFileModel) -> bool {
    is_pending(repository, walk.stack, file) || is_found(repository, walk.blobs, 0, file)
}

/// The reader will hand out a file, going by what it has found and still visits.
spec fn is_owed(repository: Repository, step: StepModel, file: PackFileModel) -> bool {
    match step {
        StepModel::Finished { files } => files.contains(file),
        StepModel::Classify { path: _, walk, parent, entries, next } => comes_from_rest(
            repository,
            parent,
            entries,
            next,
            file,
        ) || is_walked(repository, walk, file),
        StepModel::Object { oid, kind: _, limit: _, walk, purpose } => match purpose {
            PurposeModel::Commit { segments } => is_pack_file(repository, oid, segments, file),
            PurposeModel::Subdir { segments, next } => is_below_directory(
                repository,
                oid,
                segments.skip(next),
                file,
            ),
            PurposeModel::Tree { parent } => is_below(repository, oid, parent, file) || is_walked(
                repository,
                walk,
                file,
            ),
            PurposeModel::Blob { blobs, files, total: _ } => files.contains(file) || is_found(
                repository,
                blobs,
                files.len() as int,
                file,
            ),
        },
    }
}

/// A walk through the repository within the bounds.
spec fn is_walk(repository: Repository, walk: WalkModel) -> bool {
    walk.format == repository.format && walk.blobs.len() <= MAX_PACK_TREE_ENTRIES
}

spec fn is_coherent(repository: Repository, step: StepModel) -> bool {
    match step {
        StepModel::Finished { .. } => true,
        StepModel::Classify { path, walk, parent, entries, next } => {
            &&& is_walk(repository, walk)
            &&& 0 <= next < entries.len()
            &&& path == place_of(parent, entries[next])
            &&& entries[next].name != encode_utf8(".git"@)
            &&& entries[next].name != encode_utf8(".malm-lock.tmp"@)
        },
        StepModel::Object { oid, kind: _, limit: _, walk, purpose } => is_walk(repository, walk)
            && match purpose {
            PurposeModel::Subdir { segments, next } => 0 <= next < segments.len(),
            PurposeModel::Blob { blobs, files, total: _ } => files.len() < blobs.len()
                && blobs[files.len() as int].oid == oid,
            _ => true,
        },
    }
}

proof fn lemma_below(
    repository: Repository,
    oid: Seq<char>,
    parent: Seq<char>,
    entries: Seq<TreeEntry<Seq<char>, Seq<u8>>>,
    file: PackFileModel,
)
    requires
        tree_entries(repository, oid) == Some(entries),
    ensures
        is_below(repository, oid, parent, file) <==> comes_from_rest(
            repository,
            parent,
            entries,
            0,
            file,
        ),
{
    if is_below(repository, oid, parent, file) {
        let depth = choose|depth: nat| lies_below(repository, oid, parent, file, depth);
        let k = choose|k: int|
            0 <= k < entries.len() && belongs(repository, parent, #[trigger] entries[k])
                && match entries[k].mode {
                TreeMode::Regular(mode) => file == (PackFileModel {
                    path: place_of(parent, entries[k]),
                    bytes: repository.objects[entries[k].oid],
                    mode,
                }),
                TreeMode::Tree => depth > 0 && lies_below(
                    repository,
                    entries[k].oid,
                    place_of(parent, entries[k]),
                    file,
                    (depth - 1) as nat,
                ),
                _ => false,
            };
        assert(comes_from(repository, parent, entries[k], file));
    }
    if comes_from_rest(repository, parent, entries, 0, file) {
        let k = choose|k: int|
            0 <= k < entries.len() && comes_from(repository, parent, #[trigger] entries[k], file);
        let entry = entries[k];
        if entry.mode is Tree {
            let depth = choose|depth: nat|
                lies_below(repository, entry.oid, place_of(parent, entry), file, depth);
            assert(((depth + 1) - 1) as nat == depth);
            assert(lies_below(repository, oid, parent, file, depth + 1));
        } else {
            assert(lies_below(repository, oid, parent, file, 0));
        }
    }
}

proof fn lemma_placed(
    repository: Repository,
    walk: WalkModel,
    parent: Seq<char>,
    entry: TreeEntry<Seq<char>, Seq<u8>>,
    file: PackFileModel,
)
    requires
        is_walk(repository, walk),
        belongs(repository, parent, entry),
        reader::placed(walk, entry, place_of(parent, entry)) is Ok,
    ensures
        ({
            let after = reader::placed(walk, entry, place_of(parent, entry))->Ok_0;
            &&& is_walk(repository, after)
            &&& is_walked(repository, after, file) <==> is_walked(repository, walk, file)
                || comes_from(repository, parent, entry, file)
        }),
{
    let path = place_of(parent, entry);
    let after = reader::placed(walk, entry, path)->Ok_0;
    match entry.mode {
        TreeMode::Regular(mode) => {
            let blob = FoundBlob { path, oid: entry.oid, mode };
            let last = walk.blobs.len() as int;
            assert(after.blobs[last] == blob);
            assert(forall|k: int|
                0 <= k < walk.blobs.len() ==> #[trigger] after.blobs[k] == walk.blobs[k]);
            if is_found(repository, walk.blobs, 0, file) {
                let k = choose|k: int|
                    0 <= k < walk.blobs.len() && is_blob(
                        repository,
                        #[trigger] walk.blobs[k],
                        file,
                    );
                assert(is_blob(repository, after.blobs[k], file));
            }
            if comes_from(repository, parent, entry, file) {
                assert(is_blob(repository, after.blobs[last], file));
            }
            if is_found(repository, after.blobs, 0, file) {
                let k = choose|k: int|
                    0 <= k < after.blobs.len() && is_blob(
                        repository,
                        #[trigger] after.blobs[k],
                        file,
                    );
                if k < last {
                    assert(is_blob(repository, walk.blobs[k], file));
                }
            }
        },
        TreeMode::Tree => {
            let pending = PendingTree { oid: entry.oid, parent: path };
            let last = walk.stack.len() as int;
            assert(after.stack[last] == pending);
            assert(forall|k: int|
                0 <= k < walk.stack.len() ==> #[trigger] after.stack[k] == walk.stack[k]);
            if is_pending(repository, walk.stack, file) {
                let k = choose|k: int|
                    0 <= k < walk.stack.len() && is_below(
                        repository,
                        (#[trigger] walk.stack[k]).oid,
                        walk.stack[k].parent,
                        file,
                    );
                assert(is_below(repository, after.stack[k].oid, after.stack[k].parent, file));
            }
            if comes_from(repository, parent, entry, file) {
                assert(is_below(repository, after.stack[last].oid, after.stack[last].parent, file));
            }
            if is_pending(repository, after.stack, file) {
                let k = choose|k: int|
                    0 <= k < after.stack.len() && is_below(
                        repository,
                        (#[trigger] after.stack[k]).oid,
                        after.stack[k].parent,
                        file,
                    );
                if k < last {
                    assert(is_below(repository, walk.stack[k].oid, walk.stack[k].parent, file));
                }
            }
        },
        _ => {},
    }
}

proof fn lemma_path_order_keeps_files(
    repository: Repository,
    blobs: Seq<FoundBlob<Seq<char>>>,
    file: PackFileModel,
)
    requires
        blobs.len() <= usize::MAX,
    ensures
        is_found(repository, reader::in_path_order(blobs), 0, file) <==> is_found(
            repository,
            blobs,
            0,
            file,
        ),
{
    let keys = reader::path_keys(blobs);
    sort::lemma_stable_order_exists(keys);
    let order = reader::stable_order_of(keys);
    let ordered = reader::in_path_order(blobs);
    assert(sort::is_stable_order(keys, order));
    if is_found(repository, ordered, 0, file) {
        let k = choose|k: int|
            0 <= k < ordered.len() && is_blob(repository, #[trigger] ordered[k], file);
        assert(ordered[k] == blobs[order[k] as int]);
        assert(is_blob(repository, blobs[order[k] as int], file));
    }
    if is_found(repository, blobs, 0, file) {
        let k = choose|k: int|
            0 <= k < blobs.len() && is_blob(repository, #[trigger] blobs[k], file);
        assert(order.contains(k as usize));
        let p = choose|p: int| 0 <= p < order.len() && order[p] == k as usize;
        assert(ordered[p] == blobs[k]);
        assert(is_blob(repository, ordered[p], file));
    }
}

proof fn lemma_next_blob(
    repository: Repository,
    walk: WalkModel,
    blobs: Seq<FoundBlob<Seq<char>>>,
    files: Seq<PackFileModel>,
    total: nat,
    file: PackFileModel,
)
    requires
        is_walk(repository, walk),
    ensures
        ({
            let step = reader::next_blob(walk, blobs, files, total);
            &&& is_coherent(repository, step)
            &&& is_owed(repository, step, file) <==> files.contains(file) || is_found(
                repository,
                blobs,
                files.len() as int,
                file,
            )
        }),
{
}

proof fn lemma_next_tree(repository: Repository, walk: WalkModel, file: PackFileModel)
    requires
        is_walk(repository, walk),
    ensures
        is_coherent(repository, reader::next_tree(walk)),
        is_owed(repository, reader::next_tree(walk), file) <==> is_walked(repository, walk, file),
{
    if walk.stack.len() == 0 {
        lemma_path_order_keeps_files(repository, walk.blobs, file);
        lemma_next_blob(
            repository,
            walk,
            reader::in_path_order(walk.blobs),
            Seq::empty(),
            0,
            file,
        );
    } else {
        let rest = walk.stack.drop_last();
        let top = walk.stack.len() - 1;
        assert(forall|k: int| 0 <= k < rest.len() ==> #[trigger] rest[k] == walk.stack[k]);
        if is_pending(repository, walk.stack, file) {
            let k = choose|k: int|
                0 <= k < walk.stack.len() && is_below(
                    repository,
                    (#[trigger] walk.stack[k]).oid,
                    walk.stack[k].parent,
                    file,
                );
            if k < top {
                assert(is_below(repository, rest[k].oid, rest[k].parent, file));
            }
        }
        if is_pending(repository, rest, file) {
            let k = choose|k: int|
                0 <= k < rest.len() && is_below(
                    repository,
                    (#[trigger] rest[k]).oid,
                    rest[k].parent,
                    file,
                );
            assert(is_below(repository, walk.stack[k].oid, walk.stack[k].parent, file));
        }
        if is_below(repository, walk.stack.last().oid, walk.stack.last().parent, file) {
            assert(is_below(repository, walk.stack[top].oid, walk.stack[top].parent, file));
        }
    }
}

proof fn lemma_rest(
    repository: Repository,
    parent: Seq<char>,
    entries: Seq<TreeEntry<Seq<char>, Seq<u8>>>,
    next: int,
    file: PackFileModel,
)
    requires
        0 <= next < entries.len(),
    ensures
        comes_from_rest(repository, parent, entries, next, file) <==> comes_from(
            repository,
            parent,
            entries[next],
            file,
        ) || comes_from_rest(repository, parent, entries, next + 1, file),
{
    if comes_from_rest(repository, parent, entries, next, file) {
        let k = choose|k: int|
            next <= k < entries.len() && comes_from(
                repository,
                parent,
                #[trigger] entries[k],
                file,
            );
        if k > next {
            assert(comes_from_rest(repository, parent, entries, next + 1, file));
        }
    }
}

proof fn lemma_next_entry(
    repository: Repository,
    walk: WalkModel,
    parent: Seq<char>,
    entries: Seq<TreeEntry<Seq<char>, Seq<u8>>>,
    next: int,
    file: PackFileModel,
)
    requires
        is_walk(repository, walk),
        0 <= next <= entries.len(),
        reader::next_entry(walk, parent, entries, next) is Ok,
    ensures
        ({
            let step = reader::next_entry(walk, parent, entries, next)->Ok_0;
            &&& is_coherent(repository, step)
            &&& is_owed(repository, step, file) <==> comes_from_rest(
                repository,
                parent,
                entries,
                next,
                file,
            ) || is_walked(repository, walk, file)
        }),
    decreases entries.len() - next,
{
    if next >= entries.len() {
        lemma_next_tree(repository, walk, file);
    } else {
        let entry = entries[next];
        let path = place_of(parent, entry);
        lemma_rest(repository, parent, entries, next, file);
        if reader::is_skipped_name(entry.name) {
            lemma_next_entry(repository, walk, parent, entries, next + 1, file);
        } else if path == reader::lock_file() && entry.mode !is Unsupported {
            let after = reader::placed(walk, entry, path)->Ok_0;
            lemma_placed(repository, walk, parent, entry, file);
            lemma_next_entry(repository, after, parent, entries, next + 1, file);
        }
    }
}

proof fn lemma_walk_starts(
    repository: Repository,
    budget: tree::TraversalBudget,
    oid: Seq<char>,
    file: PackFileModel,
)
    ensures
        ({
            let step = reader::walk_from(repository.format, budget, oid);
            &&& is_coherent(repository, step)
            &&& is_owed(repository, step, file) <==> is_below(
                repository,
                oid,
                Seq::empty(),
                file,
            )
        }),
{
    let root = PendingTree { oid, parent: Seq::<char>::empty() };
    let walk = WalkModel {
        format: repository.format,
        budget,
        stack: seq![root],
        blobs: Seq::empty(),
    };
    lemma_next_tree(repository, walk, file);
    if is_below(repository, oid, Seq::empty(), file) {
        assert(is_below(repository, walk.stack[0].oid, walk.stack[0].parent, file));
    }
}

proof fn lemma_descent(
    repository: Repository,
    budget: tree::TraversalBudget,
    oid: Seq<char>,
    segments: Seq<Seq<char>>,
    next: int,
    file: PackFileModel,
)
    requires
        0 <= next <= segments.len(),
    ensures
        ({
            let step = reader::descend(repository.format, budget, oid, segments, next);
            &&& is_coherent(repository, step)
            &&& is_owed(repository, step, file) <==> is_below_directory(
                repository,
                oid,
                segments.skip(next),
                file,
            )
        }),
{
    if next == segments.len() {
        lemma_walk_starts(repository, budget, oid, file);
        assert(leads_to(repository, oid, segments.skip(next), oid));
        assert forall|root: Seq<char>|
            #[trigger] leads_to(repository, oid, segments.skip(next), root) implies root == oid by {
        }
    }
}

proof fn lemma_subdirectory_found(
    repository: Repository,
    oid: Seq<char>,
    entries: Seq<TreeEntry<Seq<char>, Seq<u8>>>,
    segments: Seq<Seq<char>>,
    next: int,
    root: Seq<char>,
)
    requires
        tree_entries(repository, oid) == Some(entries),
        0 <= next < segments.len(),
        reader::named_entry(entries, encode_utf8(segments[next])) < entries.len(),
        entries[reader::named_entry(entries, encode_utf8(segments[next]))].mode is Tree,
    ensures
        leads_to(repository, oid, segments.skip(next), root) <==> leads_to(
            repository,
            entries[reader::named_entry(entries, encode_utf8(segments[next]))].oid,
            segments.skip(next + 1),
            root,
        ),
{
    let name = encode_utf8(segments[next]);
    let names = entries.map_values(|entry: TreeEntry<Seq<char>, Seq<u8>>| entry.name);
    let found = reader::named_entry(entries, name);
    seqs::lemma_first_index_of(names, name);
    assert(names[found] == name);
    assert(entries[found].name == name);
    let rest = segments.skip(next);
    assert(rest[0] == segments[next]);
    assert(rest.skip(1) =~= segments.skip(next + 1));
    if leads_to(repository, oid, rest, root) {
        let k = choose|k: int|
            0 <= k < entries.len() && (#[trigger] entries[k]).name == encode_utf8(rest[0])
                && entries[k].mode is Tree && leads_to(
                repository,
                entries[k].oid,
                rest.skip(1),
                root,
            );
        if k != found {
            assert(entries[k].name == entries[found].name);
            assert(false);
        }
    }
}

proof fn lemma_object_keeps_what_is_owed(
    repository: Repository,
    oid: Seq<char>,
    walk: WalkModel,
    purpose: PurposeModel,
    step: StepModel,
    file: PackFileModel,
)
    requires
        step matches StepModel::Object { oid: wanted, kind: _, limit: _, walk: has, purpose: needs }
            && wanted == oid && has == walk && needs == purpose,
        is_coherent(repository, step),
        reader::after_object(walk, purpose, repository.objects[oid]) is Ok,
    ensures
        ({
            let after = reader::after_object(walk, purpose, repository.objects[oid])->Ok_0;
            &&& is_coherent(repository, after)
            &&& is_owed(repository, after, file) <==> is_owed(repository, step, file)
        }),
{
    let bytes = repository.objects[oid];
    let format = repository.format;
    match purpose {
        PurposeModel::Commit { segments } => {
            let top = tree::commit_tree(bytes, format)->Ok_0;
            lemma_descent(repository, walk.budget, top, segments, 0, file);
            assert(segments.skip(0) =~= segments);
        },
        PurposeModel::Subdir { segments, next } => {
            let (read, budget) = reader::tree_read(bytes, format, walk.budget);
            let entries = read->Ok_0;
            tree::lemma_parsing_ignores_the_budget(bytes, format, walk.budget.entries as nat, 0);
            assert(tree_entries(repository, oid) == Some(entries));
            let found = reader::named_entry(entries, encode_utf8(segments[next]));
            let child = entries[found].oid;
            lemma_descent(repository, budget, child, segments, next + 1, file);
            assert forall|root: Seq<char>|
                #[trigger] leads_to(repository, oid, segments.skip(next), root) == leads_to(
                    repository,
                    child,
                    segments.skip(next + 1),
                    root,
                ) by {
                lemma_subdirectory_found(repository, oid, entries, segments, next, root);
            }
            assert forall|root: Seq<char>|
                #[trigger] leads_to(repository, child, segments.skip(next + 1), root) == leads_to(
                    repository,
                    oid,
                    segments.skip(next),
                    root,
                ) by {
                lemma_subdirectory_found(repository, oid, entries, segments, next, root);
            }
        },
        PurposeModel::Tree { parent } => {
            let (read, budget) = reader::tree_read(bytes, format, walk.budget);
            let entries = read->Ok_0;
            tree::lemma_parsing_ignores_the_budget(bytes, format, walk.budget.entries as nat, 0);
            assert(tree_entries(repository, oid) == Some(entries));
            lemma_below(repository, oid, parent, entries, file);
            lemma_next_entry(
                repository,
                WalkModel { budget, ..walk },
                parent,
                entries,
                0,
                file,
            );
        },
        PurposeModel::Blob { blobs, files, total } => {
            let at = files.len() as int;
            let taken = PackFileModel { path: blobs[at].path, bytes, mode: blobs[at].mode };
            let longer = files.push(taken);
            let sum = tree::saturating_sum(total, bytes.len());
            lemma_next_blob(repository, walk, blobs, longer, sum, file);
            assert(is_blob(repository, blobs[at], taken));
            assert(longer[at] == taken);
            assert(longer.contains(taken));
            if files.contains(file) {
                let k = choose|k: int| 0 <= k < files.len() && files[k] == file;
                assert(longer[k] == file);
            }
            if longer.contains(file) {
                let k = choose|k: int| 0 <= k < longer.len() && longer[k] == file;
                if k < at {
                    assert(files[k] == file);
                }
            }
            if is_found(repository, blobs, at, file) {
                let k = choose|k: int|
                    at <= k < blobs.len() && is_blob(repository, #[trigger] blobs[k], file);
                if k > at {
                    assert(is_found(repository, blobs, at + 1, file));
                }
            }
        },
    }
}

proof fn lemma_answer_keeps_what_is_owed(
    repository: Repository,
    step: StepModel,
    file: PackFileModel,
)
    requires
        is_coherent(repository, step),
        answered(repository, step, 1) is Ok,
    ensures
        is_coherent(repository, answered(repository, step, 1)->Ok_0),
        is_owed(repository, answered(repository, step, 1)->Ok_0, file) <==> is_owed(
            repository,
            step,
            file,
        ),
{
    reveal_with_fuel(answered, 2);
    match step {
        StepModel::Object { oid, kind: _, limit: _, walk, purpose } => {
            lemma_object_keeps_what_is_owed(repository, oid, walk, purpose, step, file);
        },
        StepModel::Classify { path, walk, parent, entries, next } => {
            let class = repository.classes[path];
            lemma_rest(repository, parent, entries, next, file);
            if class is Reserved && path != reader::lock_file() {
                lemma_next_entry(repository, walk, parent, entries, next + 1, file);
            } else {
                let after = reader::placed(walk, entries[next], path)->Ok_0;
                lemma_placed(repository, walk, parent, entries[next], file);
                lemma_next_entry(repository, after, parent, entries, next + 1, file);
            }
        },
        StepModel::Finished { .. } => {},
    }
}

proof fn lemma_answers_keep_what_is_owed(
    repository: Repository,
    step: StepModel,
    count: nat,
    file: PackFileModel,
)
    requires
        is_coherent(repository, step),
        answered(repository, step, count) is Ok,
    ensures
        is_owed(repository, answered(repository, step, count)->Ok_0, file) <==> is_owed(
            repository,
            step,
            file,
        ),
    decreases count,
{
    if count > 0 {
        reveal_with_fuel(answered, 2);
        let next = answered(repository, step, 1);
        assert(next is Ok);
        lemma_answer_keeps_what_is_owed(repository, step, file);
        assert(answered(repository, step, count) == answered(
            repository,
            next->Ok_0,
            (count - 1) as nat,
        ));
        lemma_answers_keep_what_is_owed(repository, next->Ok_0, (count - 1) as nat, file);
    }
}

/// Reading a pack gives exactly the files of its committed tree: a file is among the finished
/// ones if and only if it is a regular entry, with its path, its bytes and its mode, of the tree
/// that the directory of the pack leads to or of a tree below it, where neither it nor a tree on
/// the way to it is passed over.
pub proof fn lemma_reading_gives_the_files_of_the_pack(
    repository: Repository,
    commit: Seq<char>,
    segments: Seq<Seq<char>>,
    count: nat,
    files: Seq<PackFileModel>,
    file: PackFileModel,
)
    requires
        answered(repository, reader::first_step(repository.format, commit, segments), count) == Ok::<
            StepModel,
            GitAcquisitionIssue<Seq<char>>,
        >(StepModel::Finished { files }),
    ensures
        files.contains(file) <==> is_pack_file(repository, commit, segments, file),
{
    let step = reader::first_step(repository.format, commit, segments);
    lemma_answers_keep_what_is_owed(repository, step, count, file);
}

} // verus!
