//! Which objects a canonical tree is made of, and that loading it asks for exactly these.

use vstd::prelude::*;

use crate::seqs;
use crate::tree_graph;
use crate::tree_graph::{Cursor, GraphEntry, GraphEntryKind, GraphModel, LoadRequest, PendingTree};

verus! {

/// An object of the store, by its digest.
pub enum TreeObject {
    Tree(Seq<char>),
    File(Seq<char>),
    Symlink(Seq<char>),
}

/// The trees of a store, by their digests.
pub type Trees = Map<Seq<char>, Seq<GraphEntry<Seq<char>>>>;

/// An object is a tree, or one of its entries, or belongs to a directory among them that is at
/// most so many directories down.
pub open spec fn reaches(trees: Trees, digest: Seq<char>, object: TreeObject, depth: nat) -> bool
    decreases depth,
{
    ||| object == TreeObject::Tree(digest)
    ||| exists|k: int|
        0 <= k < trees[digest].len() && match (#[trigger] trees[digest][k]).kind {
            GraphEntryKind::File { digest: file, byte_len: _ } => object == TreeObject::File(file),
            GraphEntryKind::SafeRelativeSymlink { digest: link } => object == TreeObject::Symlink(
                link,
            ),
            GraphEntryKind::Directory { digest: below } => depth > 0 && reaches(
                trees,
                below,
                object,
                (depth - 1) as nat,
            ),
        }
}

/// A tree is made of an object, among others.
pub open spec fn is_part(trees: Trees, digest: Seq<char>, object: TreeObject) -> bool {
    exists|depth: nat| reaches(trees, digest, object, depth)
}

/// An object comes from an entry of a tree.
pub open spec fn comes_from(
    trees: Trees,
    entry: GraphEntry<Seq<char>>,
    object: TreeObject,
) -> bool {
    match entry.kind {
        GraphEntryKind::File { digest, byte_len: _ } => object == TreeObject::File(digest),
        GraphEntryKind::SafeRelativeSymlink { digest } => object == TreeObject::Symlink(digest),
        GraphEntryKind::Directory { digest } => is_part(trees, digest, object),
    }
}

/// A loader has asked for an object.
pub open spec fn was_loaded(model: GraphModel, object: TreeObject) -> bool {
    match object {
        TreeObject::Tree(digest) => model.trees.contains(digest),
        TreeObject::File(digest) => model.files.contains(digest),
        TreeObject::Symlink(digest) => model.symlinks.contains(digest),
    }
}

/// Where a loader has arrived that gets its trees from a store, where it finishes within so many
/// requests.
pub open spec fn loaded(trees: Trees, model: GraphModel, count: nat) -> Option<GraphModel>
    decreases count,
{
    if count == 0 {
        None
    } else {
        let (next, request) = tree_graph::advance(model);
        match request {
            LoadRequest::Tree { digest } => loaded(
                trees,
                GraphModel {
                    trees: next.trees.push(digest),
                    contents: next.contents.push(trees[digest]),
                    ..next
                },
                (count - 1) as nat,
            ),
            LoadRequest::Finished => Some(next),
            LoadRequest::Failed { detail: _ } => None,
            _ => loaded(trees, next, (count - 1) as nat),
        }
    }
}

spec fn is_pending(
    trees: Trees,
    pending: Seq<PendingTree<Seq<char>>>,
    object: TreeObject,
) -> bool {
    exists|i: int| 0 <= i < pending.len() && is_part(trees, (#[trigger] pending[i]).digest, object)
}

spec fn comes_from_rest(
    trees: Trees,
    entries: Seq<GraphEntry<Seq<char>>>,
    next: int,
    object: TreeObject,
) -> bool {
    exists|k: int| next <= k < entries.len() && comes_from(trees, #[trigger] entries[k], object)
}

/// An object was asked for, or will have been when the loader finishes.
spec fn is_owed(trees: Trees, model: GraphModel, object: TreeObject) -> bool {
    ||| was_loaded(model, object)
    ||| is_pending(trees, model.pending, object)
    ||| model.at matches Some(at) && comes_from_rest(
        trees,
        model.contents[at.tree as int],
        at.next as int,
        object,
    )
}

/// The loader holds trees of the store.
spec fn is_coherent(trees: Trees, model: GraphModel) -> bool {
    &&& tree_graph::is_within_bounds(model)
    &&& forall|i: int|
        0 <= i < model.trees.len() ==> #[trigger] model.contents[i] == trees[model.trees[i]]
    &&& forall|i: int|
        0 <= i < model.trees.len() ==> (#[trigger] model.contents[i]).len() <= usize::MAX
}

proof fn lemma_part(trees: Trees, digest: Seq<char>, object: TreeObject)
    ensures
        is_part(trees, digest, object) <==> object == TreeObject::Tree(digest) || comes_from_rest(
            trees,
            trees[digest],
            0,
            object,
        ),
{
    let entries = trees[digest];
    if is_part(trees, digest, object) && object != TreeObject::Tree(digest) {
        let depth = choose|depth: nat| reaches(trees, digest, object, depth);
        let k = choose|k: int|
            0 <= k < entries.len() && match (#[trigger] entries[k]).kind {
                GraphEntryKind::File { digest: file, byte_len: _ } => object == TreeObject::File(
                    file,
                ),
                GraphEntryKind::SafeRelativeSymlink { digest: link } => object
                    == TreeObject::Symlink(link),
                GraphEntryKind::Directory { digest: below } => depth > 0 && reaches(
                    trees,
                    below,
                    object,
                    (depth - 1) as nat,
                ),
            };
        assert(comes_from(trees, entries[k], object));
    }
    if object == TreeObject::Tree(digest) {
        assert(reaches(trees, digest, object, 0));
    }
    if comes_from_rest(trees, entries, 0, object) {
        let k = choose|k: int|
            0 <= k < entries.len() && comes_from(trees, #[trigger] entries[k], object);
        match entries[k].kind {
            GraphEntryKind::Directory { digest: below } => {
                let depth = choose|depth: nat| reaches(trees, below, object, depth);
                assert(((depth + 1) - 1) as nat == depth);
                assert(reaches(trees, digest, object, depth + 1));
            },
            _ => {
                assert(reaches(trees, digest, object, 0));
            },
        }
    }
}

proof fn lemma_popped(trees: Trees, pending: Seq<PendingTree<Seq<char>>>, object: TreeObject)
    requires
        pending.len() > 0,
    ensures
        is_pending(trees, pending, object) <==> is_pending(trees, pending.drop_last(), object)
            || is_part(trees, pending.last().digest, object),
{
    let fewer = pending.drop_last();
    let last = pending.len() - 1;
    if is_pending(trees, pending, object) {
        let i = choose|i: int|
            0 <= i < pending.len() && is_part(trees, (#[trigger] pending[i]).digest, object);
        if i < last {
            assert(fewer[i] == pending[i]);
        }
    }
    if is_pending(trees, fewer, object) {
        let i = choose|i: int|
            0 <= i < fewer.len() && is_part(trees, (#[trigger] fewer[i]).digest, object);
        assert(pending[i] == fewer[i]);
    }
    if is_part(trees, pending.last().digest, object) {
        assert(is_part(trees, pending[last].digest, object));
    }
}

proof fn lemma_visited(
    trees: Trees,
    entries: Seq<GraphEntry<Seq<char>>>,
    next: int,
    object: TreeObject,
)
    requires
        0 <= next < entries.len(),
    ensures
        comes_from_rest(trees, entries, next, object) <==> comes_from(trees, entries[next], object)
            || comes_from_rest(trees, entries, next + 1, object),
{
    if comes_from_rest(trees, entries, next, object) {
        let k = choose|k: int|
            next <= k < entries.len() && comes_from(trees, #[trigger] entries[k], object);
        if k > next {
            assert(comes_from(trees, entries[k], object));
        }
    }
    if comes_from_rest(trees, entries, next + 1, object) {
        let k = choose|k: int|
            next + 1 <= k < entries.len() && comes_from(trees, #[trigger] entries[k], object);
        assert(comes_from(trees, entries[k], object));
    }
}

proof fn lemma_pushed<A>(items: Seq<A>, item: A, value: A)
    ensures
        items.push(item).contains(value) <==> items.contains(value) || value == item,
{
    let more = items.push(item);
    assert(more[items.len() as int] == item);
    if items.contains(value) {
        let i = items.index_of(value);
        assert(more[i] == value);
    }
}

/// Walking on keeps what is owed.
#[verifier::rlimit(40)]
proof fn lemma_advance_keeps_what_is_owed(trees: Trees, model: GraphModel, object: TreeObject)
    requires
        is_coherent(trees, model),
        model.trees.len() <= usize::MAX,
    ensures
        is_coherent(trees, tree_graph::advance(model).0),
        tree_graph::advance(model).0.trees == model.trees,
        tree_graph::advance(model).1 !is Failed ==> is_owed(
            trees,
            tree_graph::advance(model).0,
            object,
        ) == is_owed(trees, model, object),
        tree_graph::advance(model).1 is Finished ==> was_loaded(
            tree_graph::advance(model).0,
            object,
        ) == is_owed(trees, model, object),
    decreases
            crate::limits::MAX_TREE_ENTRIES - model.entries,
            model.pending.len(),
            (if model.at is Some {
                1int
            } else {
                0int
            }),
{
    tree_graph::lemma_walk_stays_within_bounds(model);
    match model.at {
        None => {
            if model.pending.len() == 0 {
                assert(!is_pending(trees, model.pending, object));
            } else {
                let tree = model.pending.last();
                let index = seqs::first_index_of(model.trees, tree.digest);
                seqs::lemma_first_index_of(model.trees, tree.digest);
                if index < model.trees.len() {
                    let moved = GraphModel {
                        pending: model.pending.drop_last(),
                        at: Some(
                            Cursor {
                                tree: index as usize,
                                next: 0,
                                depth: tree.depth,
                                prefix: tree.prefix,
                            },
                        ),
                        ..model
                    };
                    lemma_popped(trees, model.pending, object);
                    lemma_part(trees, tree.digest, object);
                    assert(model.contents[index] == trees[tree.digest]);
                    lemma_advance_keeps_what_is_owed(trees, moved, object);
                }
            }
        },
        Some(at) => {
            let entries = model.contents[at.tree as int];
            if at.next >= entries.len() {
                assert(!comes_from_rest(trees, entries, at.next as int, object));
                lemma_advance_keeps_what_is_owed(trees, GraphModel { at: None, ..model }, object);
            } else {
                let entry = entries[at.next as int];
                let walked = GraphModel {
                    entries: model.entries + 1,
                    at: Some(Cursor { next: (at.next + 1) as usize, ..at }),
                    ..model
                };
                lemma_visited(trees, entries, at.next as int, object);
                if tree_graph::exceeded_bound(model, at, entry.name) is None {
                    match entry.kind {
                        GraphEntryKind::File { digest, byte_len } => {
                            seqs::lemma_first_index_of(model.files, digest);
                            lemma_pushed(model.files, digest, object->File_0);
                            if seqs::first_index_of(model.files, digest) < model.files.len()
                                && model.bytes + byte_len
                                <= crate::limits::MAX_TREE_AGGREGATE_FILE_BYTES {
                                lemma_advance_keeps_what_is_owed(
                                    trees,
                                    GraphModel { bytes: model.bytes + byte_len, ..walked },
                                    object,
                                );
                            }
                        },
                        GraphEntryKind::Directory { digest } => {
                            let pending = model.pending.push(
                                PendingTree {
                                    digest,
                                    depth: (at.depth + 1) as usize,
                                    prefix: tree_graph::entry_path_bytes(
                                        at.prefix as int,
                                        entry.name,
                                    ) as usize,
                                },
                            );
                            lemma_popped(trees, pending, object);
                            assert(pending.drop_last() =~= model.pending);
                            lemma_advance_keeps_what_is_owed(
                                trees,
                                GraphModel { pending, ..walked },
                                object,
                            );
                        },
                        GraphEntryKind::SafeRelativeSymlink { digest } => {
                            seqs::lemma_first_index_of(model.symlinks, digest);
                            lemma_pushed(model.symlinks, digest, object->Symlink_0);
                            if seqs::first_index_of(model.symlinks, digest)
                                < model.symlinks.len() {
                                lemma_advance_keeps_what_is_owed(trees, walked, object);
                            }
                        },
                    }
                }
            }
        },
    }
}

proof fn lemma_supply_keeps_what_is_owed(
    trees: Trees,
    model: GraphModel,
    digest: Seq<char>,
    object: TreeObject,
)
    requires
        is_coherent(trees, model),
        trees[digest].len() <= usize::MAX,
        model.pending.len() > 0,
        model.pending.last().digest == digest,
    ensures
        ({
            let supplied = GraphModel {
                trees: model.trees.push(digest),
                contents: model.contents.push(trees[digest]),
                ..model
            };
            &&& is_coherent(trees, supplied)
            &&& is_owed(trees, supplied, object) == is_owed(trees, model, object)
        }),
{
    let supplied = GraphModel {
        trees: model.trees.push(digest),
        contents: model.contents.push(trees[digest]),
        ..model
    };
    lemma_pushed(model.trees, digest, object->Tree_0);
    lemma_popped(trees, model.pending, object);
    lemma_part(trees, digest, object);
    assert forall|i: int| 0 <= i < supplied.trees.len() implies #[trigger] supplied.contents[i]
        == trees[supplied.trees[i]] && supplied.contents[i].len() <= usize::MAX by {
        if i < model.trees.len() {
            assert(supplied.contents[i] == model.contents[i]);
        }
    }
}

proof fn lemma_loading_keeps_what_is_owed(
    trees: Trees,
    model: GraphModel,
    count: nat,
    object: TreeObject,
)
    requires
        is_coherent(trees, model),
        forall|digest: Seq<char>| (#[trigger] trees[digest]).len() <= usize::MAX,
        model.trees.len() + count <= usize::MAX,
        loaded(trees, model, count) is Some,
    ensures
        was_loaded(loaded(trees, model, count)->0, object) <==> is_owed(trees, model, object),
    decreases count,
{
    let (next, request) = tree_graph::advance(model);
    lemma_advance_keeps_what_is_owed(trees, model, object);
    match request {
        LoadRequest::Tree { digest } => {
            tree_graph::lemma_walk_stays_within_bounds(model);
            lemma_supply_keeps_what_is_owed(trees, next, digest, object);
            let supplied = GraphModel {
                trees: next.trees.push(digest),
                contents: next.contents.push(trees[digest]),
                ..next
            };
            lemma_loading_keeps_what_is_owed(trees, supplied, (count - 1) as nat, object);
        },
        LoadRequest::Finished => {},
        LoadRequest::Failed { detail: _ } => {},
        _ => {
            lemma_loading_keeps_what_is_owed(trees, next, (count - 1) as nat, object);
        },
    }
}

/// Loading a tree asks for exactly the objects that it is made of: a tree, a file or a symbolic
/// link was asked for when the loader finishes if and only if it is the root, or an entry of the
/// root or of a directory below it.
pub proof fn lemma_loading_asks_for_every_object(
    trees: Trees,
    root: Seq<char>,
    count: nat,
    object: TreeObject,
)
    requires
        forall|digest: Seq<char>| (#[trigger] trees[digest]).len() <= usize::MAX,
        count <= usize::MAX,
        loaded(trees, tree_graph::loader_start(root), count) is Some,
    ensures
        was_loaded(loaded(trees, tree_graph::loader_start(root), count)->0, object) <==> is_part(
            trees,
            root,
            object,
        ),
{
    let start = tree_graph::loader_start(root);
    lemma_loading_keeps_what_is_owed(trees, start, count, object);
    lemma_popped(trees, start.pending, object);
    assert(!is_pending(trees, start.pending.drop_last(), object));
}

/// An entry of a loaded tree is of the given kind.
pub open spec fn is_listed(
    contents: Seq<Seq<GraphEntry<Seq<char>>>>,
    kind: GraphEntryKind<Seq<char>>,
) -> bool {
    exists|i: int, k: int|
        #![trigger contents[i][k]]
        0 <= i < contents.len() && 0 <= k < contents[i].len() && contents[i][k].kind == kind
}

/// A file is asked for with the digest and the length that an entry of a loaded tree gives it,
/// and a symbolic link with the digest that an entry gives it.
pub proof fn lemma_objects_are_asked_for_as_listed(model: GraphModel)
    requires
        tree_graph::is_within_bounds(model),
    ensures
        tree_graph::advance(model).1 matches LoadRequest::File { digest, byte_len } ==> is_listed(
            model.contents,
            GraphEntryKind::File { digest, byte_len },
        ),
        tree_graph::advance(model).1 matches LoadRequest::Symlink { digest } ==> is_listed(
            model.contents,
            GraphEntryKind::SafeRelativeSymlink { digest },
        ),
    decreases
            crate::limits::MAX_TREE_ENTRIES - model.entries,
            model.pending.len(),
            (if model.at is Some {
                1int
            } else {
                0int
            }),
{
    match model.at {
        None => {
            if model.pending.len() > 0 {
                let tree = model.pending.last();
                let index = seqs::first_index_of(model.trees, tree.digest);
                seqs::lemma_first_index_of(model.trees, tree.digest);
                if index < model.trees.len() {
                    lemma_objects_are_asked_for_as_listed(
                        GraphModel {
                            pending: model.pending.drop_last(),
                            at: Some(
                                Cursor {
                                    tree: index as usize,
                                    next: 0,
                                    depth: tree.depth,
                                    prefix: tree.prefix,
                                },
                            ),
                            ..model
                        },
                    );
                }
            }
        },
        Some(at) => {
            let entries = model.contents[at.tree as int];
            if at.next >= entries.len() {
                lemma_objects_are_asked_for_as_listed(GraphModel { at: None, ..model });
            } else {
                let entry = model.contents[at.tree as int][at.next as int];
                let walked = GraphModel {
                    entries: model.entries + 1,
                    at: Some(Cursor { next: (at.next + 1) as usize, ..at }),
                    ..model
                };
                assert(is_listed(model.contents, entry.kind));
                if tree_graph::exceeded_bound(model, at, entry.name) is None {
                    match entry.kind {
                        GraphEntryKind::File { digest, byte_len } => {
                            if seqs::first_index_of(model.files, digest) < model.files.len()
                                && model.bytes + byte_len
                                <= crate::limits::MAX_TREE_AGGREGATE_FILE_BYTES {
                                lemma_objects_are_asked_for_as_listed(
                                    GraphModel { bytes: model.bytes + byte_len, ..walked },
                                );
                            }
                        },
                        GraphEntryKind::Directory { digest } => {
                            lemma_objects_are_asked_for_as_listed(
                                GraphModel {
                                    pending: model.pending.push(
                                        PendingTree {
                                            digest,
                                            depth: (at.depth + 1) as usize,
                                            prefix: tree_graph::entry_path_bytes(
                                                at.prefix as int,
                                                entry.name,
                                            ) as usize,
                                        },
                                    ),
                                    ..walked
                                },
                            );
                        },
                        GraphEntryKind::SafeRelativeSymlink { digest } => {
                            if seqs::first_index_of(model.symlinks, digest)
                                < model.symlinks.len() {
                                lemma_objects_are_asked_for_as_listed(walked);
                            }
                        },
                    }
                }
            }
        },
    }
}

} // verus!
