//! Loading a whole canonical tree from the store within fixed bounds.
//!
//! The loader says which object it needs next; the caller loads it and hands it over. Each
//! tree, file and symbolic link is loaded once, however often the tree names it, while the
//! bounds count every place.

use vstd::prelude::*;
use vstd::utf8::*;

use crate::canonical::CanonicalObjectKind;
use crate::error::{CanonicalObjectIssue, EngineError};
use crate::limits::{
    MAX_TREE_AGGREGATE_FILE_BYTES, MAX_TREE_DEPTH, MAX_TREE_ENTRIES, MAX_TREE_PATH_BYTES,
};
use crate::objects;
use crate::objects::{object_path, ObjectFlavor, ObjectTarget};
use crate::seqs;
use crate::state_root;
use crate::text::text_equal;

verus! {

/// What an entry of a canonical tree is; `T` is the type of text.
#[derive(Debug)]
pub enum GraphEntryKind<T = String> {
    /// A regular file.
    File { digest: T, byte_len: u64 },
    /// A directory.
    Directory { digest: T },
    /// A symbolic link that stays inside the tree.
    SafeRelativeSymlink { digest: T },
}

/// An entry of a canonical tree; `T` is the type of text.
#[derive(Debug)]
pub struct GraphEntry<T = String> {
    pub name: T,
    pub kind: GraphEntryKind<T>,
}

impl View for GraphEntry<String> {
    type V = GraphEntry<Seq<char>>;

    open spec fn view(&self) -> GraphEntry<Seq<char>> {
        GraphEntry {
            name: self.name@,
            kind: match self.kind {
                GraphEntryKind::File { digest, byte_len } => GraphEntryKind::File {
                    digest: digest@,
                    byte_len,
                },
                GraphEntryKind::Directory { digest } => GraphEntryKind::Directory {
                    digest: digest@,
                },
                GraphEntryKind::SafeRelativeSymlink { digest } =>
                    GraphEntryKind::SafeRelativeSymlink { digest: digest@ },
            },
        }
    }
}

/// A tree that still has to be walked, its depth, and the length of the path to it.
#[derive(Debug)]
pub struct PendingTree<T = String> {
    pub digest: T,
    pub depth: usize,
    pub prefix: usize,
}

impl View for PendingTree<String> {
    type V = PendingTree<Seq<char>>;

    open spec fn view(&self) -> PendingTree<Seq<char>> {
        PendingTree { digest: self.digest@, depth: self.depth, prefix: self.prefix }
    }
}

/// The place in a tree that is being walked.
#[derive(Clone, Copy, Debug, PartialEq, Eq, Structural)]
pub struct Cursor {
    pub tree: usize,
    pub next: usize,
    pub depth: usize,
    pub prefix: usize,
}

/// What the loader needs next; `T` is the type of text.
#[derive(Debug)]
pub enum LoadRequest<T = String> {
    /// The entries of a tree.
    Tree { digest: T },
    /// The contents of a file, which must have the given length.
    File { digest: T, byte_len: u64 },
    /// The target of a symbolic link.
    Symlink { digest: T },
    /// Nothing: everything was walked.
    Finished,
    /// Nothing: a bound is exceeded.
    Failed { detail: T },
}

impl View for LoadRequest<String> {
    type V = LoadRequest<Seq<char>>;

    open spec fn view(&self) -> LoadRequest<Seq<char>> {
        match *self {
            LoadRequest::Tree { digest } => LoadRequest::Tree { digest: digest@ },
            LoadRequest::File { digest, byte_len } => LoadRequest::File {
                digest: digest@,
                byte_len,
            },
            LoadRequest::Symlink { digest } => LoadRequest::Symlink { digest: digest@ },
            LoadRequest::Finished => LoadRequest::Finished,
            LoadRequest::Failed { detail } => LoadRequest::Failed { detail: detail@ },
        }
    }
}

/// What a loader knows.
pub struct GraphModel {
    /// Trees to walk, the next one last.
    pub pending: Seq<PendingTree<Seq<char>>>,
    /// Digests of the trees that were loaded.
    pub trees: Seq<Seq<char>>,
    /// Their entries.
    pub contents: Seq<Seq<GraphEntry<Seq<char>>>>,
    /// Digests of the files that were asked for.
    pub files: Seq<Seq<char>>,
    /// Digests of the symbolic links that were asked for.
    pub symlinks: Seq<Seq<char>>,
    /// Number of entries walked.
    pub entries: int,
    /// Number of bytes in the files walked.
    pub bytes: int,
    /// Where the walk stands.
    pub at: Option<Cursor>,
}

/// A loader that knows nothing but the root.
pub open spec fn loader_start(root: Seq<char>) -> GraphModel {
    GraphModel {
        pending: seq![PendingTree { digest: root, depth: 0, prefix: 0 }],
        trees: Seq::empty(),
        contents: Seq::empty(),
        files: Seq::empty(),
        symlinks: Seq::empty(),
        entries: 0,
        bytes: 0,
        at: None,
    }
}

/// The length of the path to an entry: a separator stands behind every directory but the root.
pub open spec fn entry_path_bytes(prefix: int, name: Seq<char>) -> int {
    prefix + (if prefix != 0 {
        1int
    } else {
        0int
    }) + encode_utf8(name).len()
}

/// Which bound an entry exceeds, if any; the first counts.
pub open spec fn exceeded_bound(model: GraphModel, at: Cursor, name: Seq<char>) -> Option<
    Seq<char>,
> {
    if at.depth + 1 > MAX_TREE_DEPTH {
        Some("tree depth exceeds the canonical graph limit while loading"@)
    } else if entry_path_bytes(at.prefix as int, name) > MAX_TREE_PATH_BYTES {
        Some("tree path bytes exceed the canonical graph limit while loading"@)
    } else if model.entries >= MAX_TREE_ENTRIES {
        Some("logical tree entries exceed the canonical graph limit while loading"@)
    } else {
        None
    }
}

/// The loader walks on until it needs an object, and says which.
pub open spec fn advance(model: GraphModel) -> (GraphModel, LoadRequest<Seq<char>>)
    decreases
            MAX_TREE_ENTRIES - model.entries,
            model.pending.len(),
            (if model.at is Some {
                1int
            } else {
                0int
            }),
{
    match model.at {
        None => if model.pending.len() == 0 {
            (model, LoadRequest::Finished)
        } else {
            let tree = model.pending.last();
            let index = seqs::first_index_of(model.trees, tree.digest);
            if index < model.trees.len() {
                advance(
                    GraphModel {
                        pending: model.pending.drop_last(),
                        at: Some(
                            Cursor {
                                tree: index as usize,
                                next: 0,
                                depth: tree.depth,
                                prefix: tree.prefix,
                            },
                        ),
                        ..model
                    },
                )
            } else {
                (model, LoadRequest::Tree { digest: tree.digest })
            }
        },
        Some(at) => if at.next >= model.contents[at.tree as int].len() {
            advance(GraphModel { at: None, ..model })
        } else {
            let entry = model.contents[at.tree as int][at.next as int];
            let walked = GraphModel {
                entries: model.entries + 1,
                at: Some(Cursor { next: (at.next + 1) as usize, ..at }),
                ..model
            };
            match exceeded_bound(model, at, entry.name) {
                Some(detail) => (model, LoadRequest::Failed { detail }),
                None => match entry.kind {
                    GraphEntryKind::File { digest, byte_len } => if model.bytes + byte_len
                        > u64::MAX {
                        (
                            walked,
                            LoadRequest::Failed {
                                detail: "logical tree file bytes overflow while loading"@,
                            },
                        )
                    } else if model.bytes + byte_len > MAX_TREE_AGGREGATE_FILE_BYTES {
                        (
                            walked,
                            LoadRequest::Failed {
                                detail:
                                    "logical tree file bytes exceed the canonical graph limit while loading"@,
                            },
                        )
                    } else if seqs::first_index_of(model.files, digest) < model.files.len() {
                        advance(GraphModel { bytes: model.bytes + byte_len, ..walked })
                    } else {
                        (
                            GraphModel {
                                bytes: model.bytes + byte_len,
                                files: model.files.push(digest),
                                ..walked
                            },
                            LoadRequest::File { digest, byte_len },
                        )
                    },
                    GraphEntryKind::Directory { digest } => advance(
                        GraphModel {
                            pending: model.pending.push(
                                PendingTree {
                                    digest,
                                    depth: (at.depth + 1) as usize,
                                    prefix: entry_path_bytes(
                                        at.prefix as int,
                                        entry.name,
                                    ) as usize,
                                },
                            ),
                            ..walked
                        },
                    ),
                    GraphEntryKind::SafeRelativeSymlink { digest } => if seqs::first_index_of(
                        model.symlinks,
                        digest,
                    ) < model.symlinks.len() {
                        advance(walked)
                    } else {
                        (
                            GraphModel { symlinks: model.symlinks.push(digest), ..walked },
                            LoadRequest::Symlink { digest },
                        )
                    },
                },
            }
        },
    }
}

/// The entries of several trees.
pub open spec fn contents_view(contents: Seq<Vec<GraphEntry>>) -> Seq<Seq<GraphEntry<Seq<char>>>> {
    contents.map_values(|entries: Vec<GraphEntry>| seqs::views(entries@))
}

/// The failure of a whole tree, which is told of its root.
pub open spec fn tree_graph_failure(
    state_root: Seq<u8>,
    root: Seq<char>,
    detail: Seq<char>,
) -> EngineError<Seq<char>, Seq<u8>> {
    EngineError::CanonicalObject {
        kind: CanonicalObjectKind::Tree,
        digest: root,
        path: objects::object_location(
            state_root,
            ObjectFlavor::Canonical(CanonicalObjectKind::Tree),
            root,
        ),
        reason: CanonicalObjectIssue::InvalidEncoding { detail },
    }
}

/// Tells the failure of a whole tree.
pub fn invalid_tree_graph(state_root: &[u8], root: &str, detail: String) -> (error: EngineError)
    ensures
        error@ == tree_graph_failure(state_root@, root@, detail@),
{
    let flavor = ObjectFlavor::Canonical(CanonicalObjectKind::Tree);
    EngineError::CanonicalObject {
        kind: CanonicalObjectKind::Tree,
        digest: root.to_owned(),
        path: object_path(state_root, flavor, root),
        reason: CanonicalObjectIssue::InvalidEncoding { detail },
    }
}

/// What a loader asks for, or how it failed.
pub open spec fn settled_request(
    request: LoadRequest<Seq<char>>,
    state_root: Seq<u8>,
    root: Seq<char>,
) -> Result<LoadRequest<Seq<char>>, EngineError<Seq<char>, Seq<u8>>> {
    match request {
        LoadRequest::Failed { detail } => Err(tree_graph_failure(state_root, root, detail)),
        request => Ok(request),
    }
}

/// What is asked for, as contracts speak of it.
pub open spec fn load_view(request: Result<LoadRequest, EngineError>) -> Result<
    LoadRequest<Seq<char>>,
    EngineError<Seq<char>, Seq<u8>>,
> {
    match request {
        Ok(request) => Ok(request@),
        Err(error) => Err(error@),
    }
}

/// Loads a whole canonical tree.
#[derive(Debug)]
pub struct TreeGraphLoader {
    pending: Vec<PendingTree>,
    trees: Vec<String>,
    contents: Vec<Vec<GraphEntry>>,
    files: Vec<String>,
    symlinks: Vec<String>,
    entries: usize,
    bytes: u64,
    at: Option<Cursor>,
}

/// Everything the walk holds is within bounds, and no file or symbolic link was asked for
/// twice.
pub open spec fn is_within_bounds(model: GraphModel) -> bool {
    &&& model.trees.len() == model.contents.len()
    &&& model.files.no_duplicates()
    &&& model.symlinks.no_duplicates()
    &&& 0 <= model.entries <= MAX_TREE_ENTRIES
    &&& 0 <= model.bytes <= MAX_TREE_AGGREGATE_FILE_BYTES
    &&& forall|i: int|
        0 <= i < model.pending.len() ==> (#[trigger] model.pending[i]).depth <= MAX_TREE_DEPTH
            && model.pending[i].prefix <= MAX_TREE_PATH_BYTES
    &&& model.at matches Some(at) ==> at.tree < model.trees.len() && at.next
        <= model.contents[at.tree as int].len() && at.depth <= MAX_TREE_DEPTH && at.prefix
        <= MAX_TREE_PATH_BYTES
}

/// A walk within bounds stays within bounds: no tree is asked for that lies deeper than a
/// canonical tree may, nor one that is already loaded, and no more entries or bytes are walked
/// than a canonical tree may have.
#[verifier::rlimit(40)]
pub proof fn lemma_walk_stays_within_bounds(model: GraphModel)
    requires
        is_within_bounds(model),
    ensures
        is_within_bounds(advance(model).0),
        advance(model).1 matches LoadRequest::Tree { digest } ==> {
            &&& advance(model).0.pending.len() > 0
            &&& advance(model).0.pending.last().digest == digest
            &&& advance(model).0.pending.last().depth <= MAX_TREE_DEPTH
            &&& !advance(model).0.trees.contains(digest)
        },
    decreases
            MAX_TREE_ENTRIES - model.entries,
            model.pending.len(),
            (if model.at is Some {
                1int
            } else {
                0int
            }),
{
    match model.at {
        None => {
            if model.pending.len() > 0 {
                let tree = model.pending.last();
                let index = seqs::first_index_of(model.trees, tree.digest);
                seqs::lemma_first_index_of(model.trees, tree.digest);
                if index < model.trees.len() {
                    lemma_walk_stays_within_bounds(
                        GraphModel {
                            pending: model.pending.drop_last(),
                            at: Some(
                                Cursor {
                                    tree: index as usize,
                                    next: 0,
                                    depth: tree.depth,
                                    prefix: tree.prefix,
                                },
                            ),
                            ..model
                        },
                    );
                }
            }
        },
        Some(at) => {
            if at.next >= model.contents[at.tree as int].len() {
                lemma_walk_stays_within_bounds(GraphModel { at: None, ..model });
            } else {
                let entry = model.contents[at.tree as int][at.next as int];
                let walked = GraphModel {
                    entries: model.entries + 1,
                    at: Some(Cursor { next: (at.next + 1) as usize, ..at }),
                    ..model
                };
                if exceeded_bound(model, at, entry.name) is None {
                    match entry.kind {
                        GraphEntryKind::File { digest, byte_len } => {
                            seqs::lemma_first_index_of(model.files, digest);
                            if model.bytes + byte_len <= MAX_TREE_AGGREGATE_FILE_BYTES {
                                if seqs::first_index_of(model.files, digest) < model.files.len() {
                                    lemma_walk_stays_within_bounds(
                                        GraphModel { bytes: model.bytes + byte_len, ..walked },
                                    );
                                }
                            }
                        },
                        GraphEntryKind::Directory { digest } => {
                            lemma_walk_stays_within_bounds(
                                GraphModel {
                                    pending: model.pending.push(
                                        PendingTree {
                                            digest,
                                            depth: (at.depth + 1) as usize,
                                            prefix: entry_path_bytes(
                                                at.prefix as int,
                                                entry.name,
                                            ) as usize,
                                        },
                                    ),
                                    ..walked
                                },
                            );
                        },
                        GraphEntryKind::SafeRelativeSymlink { digest } => {
                            seqs::lemma_first_index_of(model.symlinks, digest);
                            if seqs::first_index_of(model.symlinks, digest)
                                < model.symlinks.len() {
                                lemma_walk_stays_within_bounds(walked);
                            }
                        },
                    }
                }
            }
        },
    }
}

/// An entry that lies too deep is refused as an invalid root, before anything of the entry is
/// asked for.
pub proof fn lemma_too_deep_is_refused_unread(
    model: GraphModel,
    state_root: Seq<u8>,
    root: Seq<char>,
)
    requires
        model.at is Some,
        model.at->0.depth >= MAX_TREE_DEPTH,
        model.at->0.next < model.contents[model.at->0.tree as int].len(),
    ensures
        advance(model).0 == model,
        settled_request(advance(model).1, state_root, root) == Err::<
            LoadRequest<Seq<char>>,
            EngineError<Seq<char>, Seq<u8>>,
        >(
            tree_graph_failure(
                state_root,
                root,
                "tree depth exceeds the canonical graph limit while loading"@,
            ),
        ),
{
}

fn position(list: &Vec<String>, value: &str) -> (index: usize)
    ensures
        index == seqs::first_index_of(seqs::views(list@), value@),
        index <= list.len(),
{
    let ghost all = seqs::views(list@);
    proof {
        seqs::lemma_first_index_of(all, value@);
        assert(all.len() == list@.len());
    }
    let mut i: usize = 0;
    while i < list.len()
        invariant
            i <= list.len(),
            all == seqs::views(list@),
            all.len() == list@.len(),
            i <= seqs::first_index_of(all, value@) <= all.len(),
            seqs::first_index_of(all, value@) < all.len() ==> all[seqs::first_index_of(
                all,
                value@,
            )] == value@,
            forall|k: int|
                0 <= k < seqs::first_index_of(all, value@) ==> #[trigger] all[k] != value@,
        decreases list.len() - i,
    {
        assert(all[i as int] == list@[i as int]@);
        if text_equal(list[i].as_str(), value) {
            return i;
        }
        i = i + 1;
    }
    i
}

fn failed(detail: &str) -> (request: LoadRequest)
    ensures
        request@ == (LoadRequest::<Seq<char>>::Failed { detail: detail@ }),
{
    LoadRequest::Failed { detail: detail.to_owned() }
}

impl TreeGraphLoader {
    /// What the loader knows.
    pub closed spec fn model(&self) -> GraphModel {
        GraphModel {
            pending: seqs::views(self.pending@),
            trees: seqs::views(self.trees@),
            contents: contents_view(self.contents@),
            files: seqs::views(self.files@),
            symlinks: seqs::views(self.symlinks@),
            entries: self.entries as int,
            bytes: self.bytes as int,
            at: self.at,
        }
    }

    #[verifier::type_invariant]
    spec fn inv(&self) -> bool {
        is_within_bounds(self.model())
    }

    /// Starts at a root.
    pub fn new(root: String) -> (loader: TreeGraphLoader)
        ensures
            loader.model() == loader_start(root@),
    {
        let ghost digest = root@;
        let mut pending: Vec<PendingTree> = Vec::new();
        pending.push(PendingTree { digest: root, depth: 0, prefix: 0 });
        let trees: Vec<String> = Vec::new();
        let contents: Vec<Vec<GraphEntry>> = Vec::new();
        let files: Vec<String> = Vec::new();
        let symlinks: Vec<String> = Vec::new();
        proof {
            assert(seqs::views(pending@) =~= loader_start(digest).pending);
            assert(seqs::views(trees@) =~= Seq::<Seq<char>>::empty());
            assert(contents_view(contents@) =~= Seq::<Seq<GraphEntry<Seq<char>>>>::empty());
        }
        TreeGraphLoader {
            pending,
            trees,
            contents,
            files,
            symlinks,
            entries: 0,
            bytes: 0,
            at: None,
        }
    }

    /// Takes the entries of a tree that the loader asked for.
    pub fn supply_tree(self, digest: String, entries: Vec<GraphEntry>) -> (loader: TreeGraphLoader)
        ensures
            loader.model() == (GraphModel {
                trees: self.model().trees.push(digest@),
                contents: self.model().contents.push(seqs::views(entries@)),
                ..self.model()
            }),
    {
        proof {
            use_type_invariant(&self);
        }
        let ghost old_model = self.model();
        let ghost old_trees = self.trees@;
        let ghost old_contents = self.contents@;
        let ghost name = digest@;
        let ghost listed = seqs::views(entries@);
        let TreeGraphLoader {
            pending,
            trees,
            contents,
            files,
            symlinks,
            entries: walked,
            bytes,
            at,
        } = self;
        let mut trees = trees;
        let mut contents = contents;
        trees.push(digest);
        contents.push(entries);
        proof {
            assert(seqs::views(trees@) =~= seqs::views(old_trees).push(name));
            assert(contents_view(contents@) =~= contents_view(old_contents).push(listed));
        }
        TreeGraphLoader { pending, trees, contents, files, symlinks, entries: walked, bytes, at }
    }

    /// Walks on until an object is needed, and says which. However often it is called, no more
    /// entries or bytes are walked than a canonical tree may have.
    #[verifier::rlimit(40)]
    pub fn next(self) -> (step: (TreeGraphLoader, LoadRequest))
        ensures
            step.0.model() == advance(self.model()).0,
            step.1@ == advance(self.model()).1,
            is_within_bounds(step.0.model()),
    {
        proof {
            use_type_invariant(&self);
        }
        let ghost start = self.model();
        let mut loader = self;
        loop
            invariant
                start == self.model(),
                is_within_bounds(loader.model()),
                advance(loader.model()) == advance(start),
            decreases
                    MAX_TREE_ENTRIES - loader.model().entries,
                    loader.model().pending.len(),
                    (if loader.model().at is Some {
                        1int
                    } else {
                        0int
                    }),
        {
            let (walked, request) = loader.walk_one();
            match request {
                Some(request) => {
                    proof {
                        use_type_invariant(&walked);
                    }
                    return (walked, request);
                },
                None => {
                    proof {
                        use_type_invariant(&walked);
                    }
                    loader = walked;
                },
            }
        }
    }

    /// Walks on until an object is needed, and says which; a tree that exceeds a bound is told as
    /// an invalid root.
    pub fn next_object(self, state_root: &[u8], root: &str) -> (step: (
        TreeGraphLoader,
        Result<LoadRequest, EngineError>,
    ))
        ensures
            step.0.model() == advance(self.model()).0,
            is_within_bounds(step.0.model()),
            load_view(step.1) == settled_request(advance(self.model()).1, state_root@, root@),
    {
        let (loader, request) = self.next();
        match request {
            LoadRequest::Failed { detail } => {
                (loader, Err(invalid_tree_graph(state_root, root, detail)))
            },
            request => (loader, Ok(request)),
        }
    }

    fn walk_one(self) -> (step: (TreeGraphLoader, Option<LoadRequest>))
        ensures
            match step.1 {
                Some(request) => step.0.model() == advance(self.model()).0 && request@ == advance(
                    self.model(),
                ).1,
                None => {
                    &&& advance(step.0.model()) == advance(self.model())
                    &&& is_closer(step.0.model(), self.model())
                },
            },
    {
        proof {
            use_type_invariant(&self);
        }
        match self.at {
            None => self.next_tree(),
            Some(at) => self.next_entry(at),
        }
    }

    fn next_tree(self) -> (step: (TreeGraphLoader, Option<LoadRequest>))
        requires
            self.model().at is None,
        ensures
            match step.1 {
                Some(request) => step.0.model() == advance(self.model()).0 && request@ == advance(
                    self.model(),
                ).1,
                None => {
                    &&& advance(step.0.model()) == advance(self.model())
                    &&& step.0.model().entries == self.model().entries
                    &&& step.0.model().pending.len() < self.model().pending.len()
                },
            },
    {
        proof {
            use_type_invariant(&self);
            assert(self.model().pending.len() == self.pending@.len());
            assert(self.model().trees.len() == self.trees@.len());
        }
        if self.pending.len() == 0 {
            return (self, Some(LoadRequest::Finished));
        }
        let last: usize = self.pending.len() - 1;
        proof {
            assert(self.model().pending.last() == self.pending@[last as int]@);
        }
        let index: usize = position(&self.trees, self.pending[last].digest.as_str());
        if index >= self.trees.len() {
            let digest = self.pending[last].digest.clone();
            return (self, Some(LoadRequest::Tree { digest }));
        }
        let cursor = Cursor {
            tree: index,
            next: 0,
            depth: self.pending[last].depth,
            prefix: self.pending[last].prefix,
        };
        let ghost before = self.model();
        let ghost old_pending = self.pending@;
        let TreeGraphLoader { pending, trees, contents, files, symlinks, entries, bytes, at: _ } =
            self;
        let mut pending = pending;
        let _ = pending.pop();
        proof {
            assert(seqs::views(pending@) =~= seqs::views(old_pending).drop_last());
            assert forall|i: int| 0 <= i < seqs::views(pending@).len() implies (
            #[trigger] seqs::views(pending@)[i]).depth <= MAX_TREE_DEPTH && seqs::views(
                pending@,
            )[i].prefix <= MAX_TREE_PATH_BYTES by {
                assert(seqs::views(pending@)[i] == before.pending[i]);
            }
            assert(before.pending[last as int].depth <= MAX_TREE_DEPTH);
        }
        (
            TreeGraphLoader {
                pending,
                trees,
                contents,
                files,
                symlinks,
                entries,
                bytes,
                at: Some(cursor),
            },
            None,
        )
    }

    #[verifier::rlimit(60)]
    fn next_entry(self, at: Cursor) -> (step: (TreeGraphLoader, Option<LoadRequest>))
        requires
            self.model().at == Some(at),
        ensures
            match step.1 {
                Some(request) => step.0.model() == advance(self.model()).0 && request@ == advance(
                    self.model(),
                ).1,
                None => {
                    &&& advance(step.0.model()) == advance(self.model())
                    &&& step.0.model().entries > self.model().entries || (
                    step.0.model().entries == self.model().entries && step.0.model().pending
                        == self.model().pending && step.0.model().at is None)
                },
            },
    {
        proof {
            use_type_invariant(&self);
            assert(self.model().contents.len() == self.contents@.len());
            assert(self.model().contents[at.tree as int] == seqs::views(
                self.contents@[at.tree as int]@,
            ));
        }
        let ghost before = self.model();
        let count: usize = self.contents[at.tree].len();
        if at.next >= count {
            let TreeGraphLoader {
                pending,
                trees,
                contents,
                files,
                symlinks,
                entries,
                bytes,
                at: _,
            } = self;
            proof {
                assert(seqs::views(pending@) == before.pending);
                assert(seqs::views(trees@) == before.trees);
                assert(contents_view(contents@) == before.contents);
            }
            return (
                TreeGraphLoader {
                    pending,
                    trees,
                    contents,
                    files,
                    symlinks,
                    entries,
                    bytes,
                    at: None,
                },
                None,
            );
        }
        let ghost entry = before.contents[at.tree as int][at.next as int];
        proof {
            assert(entry == self.contents@[at.tree as int]@[at.next as int]@);
        }
        if at.depth + 1 > MAX_TREE_DEPTH {
            return (
                self,
                Some(failed("tree depth exceeds the canonical graph limit while loading")),
            );
        }
        let separator: usize = if at.prefix != 0 {
            1
        } else {
            0
        };
        let name_bytes: usize = self.contents[at.tree][at.next].name.as_str().as_bytes().len();
        if name_bytes > MAX_TREE_PATH_BYTES || at.prefix + separator + name_bytes
            > MAX_TREE_PATH_BYTES {
            return (
                self,
                Some(failed("tree path bytes exceed the canonical graph limit while loading")),
            );
        }
        let path_bytes: usize = at.prefix + separator + name_bytes;
        if self.entries >= MAX_TREE_ENTRIES {
            return (
                self,
                Some(
                    failed("logical tree entries exceed the canonical graph limit while loading"),
                ),
            );
        }
        let TreeGraphLoader { pending, trees, contents, files, symlinks, entries, bytes, at: _ } =
            self;
        let entries: usize = entries + 1;
        let cursor = Some(
            Cursor { tree: at.tree, next: at.next + 1, depth: at.depth, prefix: at.prefix },
        );
        match &contents[at.tree][at.next].kind {
            GraphEntryKind::File { digest, byte_len } => {
                let total: u64 = match bytes.checked_add(*byte_len) {
                    Some(total) => total,
                    None => {
                        return (
                            TreeGraphLoader {
                                pending,
                                trees,
                                contents,
                                files,
                                symlinks,
                                entries,
                                bytes,
                                at: cursor,
                            },
                            Some(failed("logical tree file bytes overflow while loading")),
                        );
                    },
                };
                if total > MAX_TREE_AGGREGATE_FILE_BYTES {
                    return (
                        TreeGraphLoader {
                            pending,
                            trees,
                            contents,
                            files,
                            symlinks,
                            entries,
                            bytes,
                            at: cursor,
                        },
                        Some(
                            failed(
                                "logical tree file bytes exceed the canonical graph limit while loading",
                            ),
                        ),
                    );
                }
                let known: usize = position(&files, digest.as_str());
                assert(seqs::views(files@).len() == files@.len());
                if known < files.len() {
                    return (
                        TreeGraphLoader {
                            pending,
                            trees,
                            contents,
                            files,
                            symlinks,
                            entries,
                            bytes: total,
                            at: cursor,
                        },
                        None,
                    );
                }
                let wanted = digest.clone();
                let length: u64 = *byte_len;
                let ghost old_files = files@;
                let mut files = files;
                files.push(digest.clone());
                proof {
                    assert(seqs::views(files@) =~= seqs::views(old_files).push(wanted@));
                    seqs::lemma_first_index_of(seqs::views(old_files), wanted@);
                }
                (
                    TreeGraphLoader {
                        pending,
                        trees,
                        contents,
                        files,
                        symlinks,
                        entries,
                        bytes: total,
                        at: cursor,
                    },
                    Some(LoadRequest::File { digest: wanted, byte_len: length }),
                )
            },
            GraphEntryKind::Directory { digest } => {
                let below = PendingTree {
                    digest: digest.clone(),
                    depth: at.depth + 1,
                    prefix: path_bytes,
                };
                let ghost model = below@;
                let ghost old_pending = pending@;
                let mut pending = pending;
                pending.push(below);
                proof {
                    assert(seqs::views(pending@) =~= seqs::views(old_pending).push(model));
                    assert forall|i: int| 0 <= i < seqs::views(pending@).len() implies (
                    #[trigger] seqs::views(pending@)[i]).depth <= MAX_TREE_DEPTH && seqs::views(
                        pending@,
                    )[i].prefix <= MAX_TREE_PATH_BYTES by {
                        if i < old_pending.len() {
                            assert(seqs::views(pending@)[i] == before.pending[i]);
                        }
                    }
                }
                (
                    TreeGraphLoader {
                        pending,
                        trees,
                        contents,
                        files,
                        symlinks,
                        entries,
                        bytes,
                        at: cursor,
                    },
                    None,
                )
            },
            GraphEntryKind::SafeRelativeSymlink { digest } => {
                let known: usize = position(&symlinks, digest.as_str());
                assert(seqs::views(symlinks@).len() == symlinks@.len());
                if known < symlinks.len() {
                    return (
                        TreeGraphLoader {
                            pending,
                            trees,
                            contents,
                            files,
                            symlinks,
                            entries,
                            bytes,
                            at: cursor,
                        },
                        None,
                    );
                }
                let wanted = digest.clone();
                let ghost old_symlinks = symlinks@;
                let mut symlinks = symlinks;
                symlinks.push(digest.clone());
                proof {
                    assert(seqs::views(symlinks@) =~= seqs::views(old_symlinks).push(wanted@));
                    seqs::lemma_first_index_of(seqs::views(old_symlinks), wanted@);
                }
                (
                    TreeGraphLoader {
                        pending,
                        trees,
                        contents,
                        files,
                        symlinks,
                        entries,
                        bytes,
                        at: cursor,
                    },
                    Some(LoadRequest::Symlink { digest: wanted }),
                )
            },
        }
    }
}

/// One state of the walk is closer to its end than another.
pub open spec fn is_closer(after: GraphModel, before: GraphModel) -> bool {
    ||| before.entries < after.entries
    ||| before.entries == after.entries && after.pending.len() < before.pending.len()
    ||| before.entries == after.entries && after.pending == before.pending && before.at is Some
        && after.at is None
}

/// Checks that a file has the length that its tree names.
pub fn check_file_length(target: &ObjectTarget, actual: u64, byte_len: u64) -> (checked: Result<
    (),
    EngineError,
>)
    ensures
        state_root::check_is(
            checked,
            if actual == byte_len {
                Ok(())
            } else {
                Err(
                    objects::object_failure(
                        target@,
                        CanonicalObjectIssue::InvalidEncoding {
                            detail: "tree file length differs from its canonical object"@,
                        },
                    ),
                )
            },
        ),
{
    if actual == byte_len {
        Ok(())
    } else {
        Err(
            target.error(
                CanonicalObjectIssue::InvalidEncoding {
                    detail: "tree file length differs from its canonical object".to_owned(),
                },
            ),
        )
    }
}

} // verus!
