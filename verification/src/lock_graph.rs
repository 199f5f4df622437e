//! Resolving the complete dependency graph of a lock.
//!
//! The resolver says which source it needs next; the caller discovers the pack there and hands
//! it over. Sources are visited in their order, each of them once.

use vstd::prelude::*;

use crate::durability;
use crate::durability::descriptors_left;
use crate::error::{LockOperationError, LockProblem};
use crate::graph_acquisition::holds;
use crate::graph_sources;
use crate::graph_sources::LockSource;
use crate::limits::{MAX_GRAPH_OBJECT_BYTES, MAX_LOCK_EDGES, MAX_LOCK_NODES};
use crate::seqs;
use crate::text::text_equal;

verus! {

/// Most bytes in all packs that one operation processes.
pub const MAX_PROCESSED_PACK_BYTES: u64 = 4_294_967_296;

/// Most descriptors that are considered at all.
pub const INFRASTRUCTURE_MAXIMUM: u64 = 16_384;

/// A dependency that a pack declares; `T` is the type of text.
#[derive(Clone, Debug, PartialEq, Eq)]
pub struct Dependency<T = String> {
    /// What the pack calls it.
    pub alias: T,
    /// The package that must be there.
    pub package: T,
    /// Where it is.
    pub source: LockSource<T>,
}

impl View for Dependency<String> {
    type V = Dependency<Seq<char>>;

    open spec fn view(&self) -> Dependency<Seq<char>> {
        Dependency { alias: self.alias@, package: self.package@, source: self.source@ }
    }
}

/// A pack that was discovered; `T` is the type of text, `D` that of its dependencies and `C`
/// that of its components.
#[derive(Clone, Debug, PartialEq, Eq)]
pub struct DiscoveredNode<T = String, D = Vec<Dependency>, C = Vec<String>> {
    pub source: LockSource<T>,
    pub digest: T,
    pub package: T,
    pub dependencies: D,
    /// The components that the pack declares, each as it declares it.
    pub components: C,
}

/// A discovered pack, as contracts speak of it.
pub type NodeModel = DiscoveredNode<Seq<char>, Seq<Dependency<Seq<char>>>, Seq<Seq<char>>>;

impl View for DiscoveredNode<String, Vec<Dependency>, Vec<String>> {
    type V = DiscoveredNode<Seq<char>, Seq<Dependency<Seq<char>>>, Seq<Seq<char>>>;

    open spec fn view(&self) -> DiscoveredNode<
        Seq<char>,
        Seq<Dependency<Seq<char>>>,
        Seq<Seq<char>>,
    > {
        DiscoveredNode {
            source: self.source@,
            digest: self.digest@,
            package: self.package@,
            dependencies: seqs::views(self.dependencies@),
            components: seqs::views(self.components@),
        }
    }
}

/// What the resolver needs next; `T` is the type of text and `B` that of paths.
#[derive(Debug)]
pub enum ResolveRequest<T = String, B = Vec<u8>> {
    /// The pack at a source.
    Discover { source: LockSource<T> },
    /// Nothing: the graph is complete.
    Finished,
    /// Nothing: the graph cannot be resolved.
    Failed(LockOperationError<T, B>),
}

impl View for ResolveRequest<String, Vec<u8>> {
    type V = ResolveRequest<Seq<char>, Seq<u8>>;

    open spec fn view(&self) -> ResolveRequest<Seq<char>, Seq<u8>> {
        match *self {
            ResolveRequest::Discover { source } => ResolveRequest::Discover { source: source@ },
            ResolveRequest::Finished => ResolveRequest::Finished,
            ResolveRequest::Failed(error) => ResolveRequest::Failed(error@),
        }
    }
}

/// What a resolver knows.
pub struct ResolverModel {
    /// The packs discovered so far.
    pub nodes: Seq<NodeModel>,
    /// Those whose dependencies were not looked at yet.
    pub pending: Seq<usize>,
    /// The pack whose dependencies are being looked at, and how many were.
    pub at: Option<(usize, usize)>,
    /// Number of dependencies counted.
    pub edges: int,
    /// Digests seen.
    pub digests: Seq<Seq<char>>,
    /// Bytes in the packs with different digests.
    pub unique: int,
    /// Bytes in all packs processed.
    pub processed: int,
}

/// Two numbers added without going beyond the largest one.
pub open spec fn saturating(left: int, right: int, largest: int) -> int {
    if left + right > largest {
        largest
    } else {
        left + right
    }
}

/// The place of a source among packs, or their number.
pub open spec fn node_index(nodes: Seq<NodeModel>, source: LockSource<Seq<char>>) -> int
    decreases nodes.len(),
{
    if nodes.len() == 0 {
        0
    } else {
        let before = node_index(nodes.drop_last(), source);
        if before < nodes.len() - 1 || nodes.last().source == source {
            before
        } else {
            nodes.len() as int
        }
    }
}

/// The place of a source is that of the first pack there.
pub proof fn lemma_node_index(nodes: Seq<NodeModel>, source: LockSource<Seq<char>>)
    ensures
        0 <= node_index(nodes, source) <= nodes.len(),
        node_index(nodes, source) < nodes.len() ==> nodes[node_index(nodes, source)].source
            == source,
        forall|k: int| 0 <= k < node_index(nodes, source) ==> (#[trigger] nodes[k]).source != source,
    decreases nodes.len(),
{
    if nodes.len() > 0 {
        let head = nodes.drop_last();
        lemma_node_index(head, source);
        assert forall|k: int| 0 <= k < node_index(nodes, source) implies (
        #[trigger] nodes[k]).source != source by {
            if k < head.len() {
                assert(head[k] == nodes[k]);
            }
        }
    }
}

/// The place among pending packs of the one whose source comes first.
pub open spec fn first_pending(nodes: Seq<NodeModel>, pending: Seq<usize>) -> int
    decreases pending.len(),
{
    if pending.len() <= 1 {
        0
    } else {
        let before = first_pending(nodes, pending.drop_last());
        if graph_sources::source_less(
            nodes[pending.last() as int].source,
            nodes[pending[before] as int].source,
        ) {
            pending.len() - 1
        } else {
            before
        }
    }
}

/// Some pack has components.
pub open spec fn any_components(nodes: Seq<NodeModel>) -> bool {
    exists|i: int| 0 <= i < nodes.len() && (#[trigger] nodes[i]).components.len() > 0
}

/// A package other than declared at a source.
pub open spec fn mismatch(
    dependency: Dependency<Seq<char>>,
    actual: Seq<char>,
) -> LockOperationError<Seq<char>, Seq<u8>> {
    LockOperationError::PackageMismatch {
        source_identity: dependency.source,
        expected: dependency.package,
        actual,
    }
}

/// The resolver goes on until it needs a pack, and says where.
pub open spec fn settle(model: ResolverModel, has_profile: bool) -> (
    ResolverModel,
    ResolveRequest<Seq<char>, Seq<u8>>,
)
    decreases
            model.pending.len(),
            (match model.at {
                None => 0int,
                Some((node, next)) => if next >= model.nodes[node as int].dependencies.len() {
                    1int
                } else {
                    model.nodes[node as int].dependencies.len() - next + 1
                },
            }),
{
    match model.at {
        None => if model.pending.len() == 0 {
            (
                model,
                if !has_profile && any_components(model.nodes) {
                    ResolveRequest::Failed(LockOperationError::MissingFormatComponentExecutionProfile)
                } else {
                    ResolveRequest::Finished
                },
            )
        } else {
            let place = first_pending(model.nodes, model.pending);
            let node = model.pending[place];
            let edges = saturating(
                model.edges,
                model.nodes[node as int].dependencies.len() as int,
                usize::MAX as int,
            );
            let opened = ResolverModel {
                pending: model.pending.remove(place),
                edges,
                at: Some((node, 0)),
                ..model
            };
            if edges > MAX_LOCK_EDGES {
                (
                    opened,
                    ResolveRequest::Failed(
                        LockOperationError::Validation {
                            problem: LockProblem::TooManyEdges {
                                limit: MAX_LOCK_EDGES,
                                actual: edges as usize,
                            },
                        },
                    ),
                )
            } else if 0 <= place < model.pending.len() {
                settle(opened, has_profile)
            } else {
                (opened, ResolveRequest::Finished)
            }
        },
        Some((node, next)) => if next >= model.nodes[node as int].dependencies.len() {
            settle(ResolverModel { at: None, ..model }, has_profile)
        } else {
            let dependency = model.nodes[node as int].dependencies[next as int];
            let index = node_index(model.nodes, dependency.source);
            if index >= model.nodes.len() {
                (
                    model,
                    if model.nodes.len() >= MAX_LOCK_NODES {
                        ResolveRequest::Failed(
                            LockOperationError::Validation {
                                problem: LockProblem::TooManyNodes {
                                    limit: MAX_LOCK_NODES,
                                    actual: (MAX_LOCK_NODES + 1) as usize,
                                },
                            },
                        )
                    } else {
                        ResolveRequest::Discover { source: dependency.source }
                    },
                )
            } else if model.nodes[index].package != dependency.package {
                (
                    model,
                    ResolveRequest::Failed(mismatch(dependency, model.nodes[index].package)),
                )
            } else if next < usize::MAX {
                settle(
                    ResolverModel { at: Some((node, (next + 1) as usize)), ..model },
                    has_profile,
                )
            } else {
                (model, ResolveRequest::Finished)
            }
        },
    }
}

/// A bound on the whole operation that is exceeded.
pub open spec fn exceeded(resource: Seq<char>, limit: u64, actual: int) -> LockOperationError<Seq<char>, Seq<u8>> {
    LockOperationError::ResourceLimitExceeded { resource, limit, actual: actual as u64 }
}

/// What becomes of a resolver that takes the pack it asked for: its bytes count against the
/// bounds, once more if its digest is new, and its package must be the declared one.
pub open spec fn supplied(model: ResolverModel, node: NodeModel, bytes: u64) -> Result<
    ResolverModel,
    LockOperationError<Seq<char>, Seq<u8>>,
> {
    match model.at {
        None => Ok(model),
        Some((owner, next)) => {
            let dependency = model.nodes[owner as int].dependencies[next as int];
            let processed = saturating(model.processed, bytes as int, u64::MAX as int);
            let is_new = seqs::first_index_of(model.digests, node.digest) >= model.digests.len();
            let unique = if is_new {
                saturating(model.unique, bytes as int, u64::MAX as int)
            } else {
                model.unique
            };
            if processed > MAX_PROCESSED_PACK_BYTES {
                Err(exceeded("processed pack bytes"@, MAX_PROCESSED_PACK_BYTES, processed))
            } else if unique > MAX_GRAPH_OBJECT_BYTES {
                Err(exceeded("unique pack bytes"@, MAX_GRAPH_OBJECT_BYTES, unique))
            } else if node.package != dependency.package {
                Err(mismatch(dependency, node.package))
            } else {
                Ok(
                    ResolverModel {
                        nodes: model.nodes.push(
                            DiscoveredNode { source: dependency.source, ..node },
                        ),
                        pending: model.pending.push(model.nodes.len() as usize),
                        at: Some((owner, (next + 1) as usize)),
                        digests: if is_new {
                            model.digests.push(node.digest)
                        } else {
                            model.digests
                        },
                        unique,
                        processed,
                        ..model
                    },
                )
            }
        },
    }
}

/// A dependency leads to a pack with the declared package.
pub open spec fn is_resolved(nodes: Seq<NodeModel>, dependency: Dependency<Seq<char>>) -> bool {
    exists|j: int|
        0 <= j < nodes.len() && (#[trigger] nodes[j]).source == dependency.source
            && nodes[j].package == dependency.package
}

/// How many dependencies of a pack were looked at.
pub open spec fn looked_at(model: ResolverModel, node: int) -> int {
    if model.pending.contains(node as usize) {
        0
    } else {
        match model.at {
            Some((owner, next)) => if owner == node {
                next as int
            } else {
                model.nodes[node].dependencies.len() as int
            },
            None => model.nodes[node].dependencies.len() as int,
        }
    }
}

/// Everything a resolver holds is in order: the root pack comes first, sources are different,
/// and whatever dependency was looked at is resolved.
pub open spec fn is_sound(model: ResolverModel) -> bool {
    &&& 0 < model.nodes.len() <= MAX_LOCK_NODES
    &&& model.nodes[0].source is Root
    &&& 0 <= model.edges <= usize::MAX
    &&& 0 <= model.unique <= MAX_GRAPH_OBJECT_BYTES
    &&& 0 <= model.processed <= MAX_PROCESSED_PACK_BYTES
    &&& forall|i: int| 0 <= i < model.pending.len() ==> #[trigger] model.pending[i]
        < model.nodes.len()
    &&& model.pending.no_duplicates()
    &&& model.at matches Some((owner, next)) ==> owner < model.nodes.len()
        && !model.pending.contains(owner) && next <= model.nodes[owner as int].dependencies.len()
    &&& forall|i: int, j: int|
        0 <= i < j < model.nodes.len() ==> (#[trigger] model.nodes[i]).source != (
        #[trigger] model.nodes[j]).source
    &&& forall|n: int, d: int|
        0 <= n < model.nodes.len() && 0 <= d < looked_at(model, n) ==> is_resolved(
            model.nodes,
            #[trigger] model.nodes[n].dependencies[d],
        )
}

/// Every dependency of every pack leads to a pack with the declared package.
pub open spec fn is_closed_graph(nodes: Seq<NodeModel>) -> bool {
    forall|n: int, d: int|
        0 <= n < nodes.len() && 0 <= d < nodes[n].dependencies.len() ==> is_resolved(
            nodes,
            #[trigger] nodes[n].dependencies[d],
        )
}

/// Returns the place of a source among packs, or their number.
pub fn place_of(nodes: &Vec<DiscoveredNode>, source: &LockSource) -> (index: usize)
    ensures
        index == node_index(seqs::views(nodes@), source@),
        index <= nodes@.len(),
{
    let ghost all = seqs::views(nodes@);
    proof {
        lemma_node_index(all, source@);
    }
    let mut i: usize = 0;
    while i < nodes.len()
        invariant
            i <= nodes.len(),
            all == seqs::views(nodes@),
            i <= node_index(all, source@) <= all.len(),
            node_index(all, source@) < all.len() ==> all[node_index(all, source@)].source
                == source@,
            forall|k: int|
                0 <= k < node_index(all, source@) ==> (#[trigger] all[k]).source != source@,
        decreases nodes.len() - i,
    {
        assert(all[i as int] == nodes@[i as int]@);
        if nodes[i].source.is_same(source) {
            return i;
        }
        i = i + 1;
    }
    i
}

/// Resolves the complete dependency graph of a lock.
#[derive(Debug)]
pub struct LockResolver {
    nodes: Vec<DiscoveredNode>,
    pending: Vec<usize>,
    at: Option<(usize, usize)>,
    edges: usize,
    digests: Vec<String>,
    unique: u64,
    processed: u64,
}

fn exceeded_limit(resource: &str, limit: u64, actual: u64) -> (failure: LockOperationError)
    ensures
        failure@ == exceeded(resource@, limit, actual as int),
{
    LockOperationError::ResourceLimitExceeded { resource: resource.to_owned(), limit, actual }
}

impl LockResolver {
    /// What the resolver knows.
    pub closed spec fn model(&self) -> ResolverModel {
        ResolverModel {
            nodes: seqs::views(self.nodes@),
            pending: self.pending@,
            at: self.at,
            edges: self.edges as int,
            digests: seqs::views(self.digests@),
            unique: self.unique as int,
            processed: self.processed as int,
        }
    }

    #[verifier::type_invariant]
    spec fn inv(&self) -> bool {
        is_sound(self.model())
    }

    /// Starts with the root pack, which counts against the bounds too, whatever source it is
    /// said to have.
    pub fn start(root: DiscoveredNode, bytes: u64, pinned: u64, descriptor_limit: u64) -> (resolver:
        Result<LockResolver, LockOperationError>)
        ensures
            if bytes > MAX_GRAPH_OBJECT_BYTES {
                resolver matches Err(failure) && failure@ == exceeded(
                    "unique pack bytes"@,
                    MAX_GRAPH_OBJECT_BYTES,
                    bytes as int,
                )
            } else if pinned > descriptor_limit {
                resolver matches Err(failure) && failure@ == exceeded(
                    "pinned source descriptors"@,
                    descriptor_limit,
                    pinned as int,
                )
            } else {
                resolver matches Ok(started) && started.model() == (ResolverModel {
                    nodes: seq![DiscoveredNode { source: LockSource::Root, ..root@ }],
                    pending: seq![0usize],
                    at: None,
                    edges: 0,
                    digests: seq![root@.digest],
                    unique: bytes as int,
                    processed: bytes as int,
                })
            },
    {
        if bytes > MAX_GRAPH_OBJECT_BYTES {
            return Err(exceeded_limit("unique pack bytes", MAX_GRAPH_OBJECT_BYTES, bytes));
        }
        if pinned > descriptor_limit {
            return Err(exceeded_limit("pinned source descriptors", descriptor_limit, pinned));
        }
        let ghost model = NodeModel { source: LockSource::Root, ..root@ };
        let mut digests: Vec<String> = Vec::new();
        digests.push(root.digest.clone());
        let mut nodes: Vec<DiscoveredNode> = Vec::new();
        nodes.push(
            DiscoveredNode {
                source: LockSource::Root,
                digest: root.digest,
                package: root.package,
                dependencies: root.dependencies,
                components: root.components,
            },
        );
        let mut pending: Vec<usize> = Vec::new();
        pending.push(0);
        proof {
            assert(seqs::views(nodes@) =~= seq![model]);
            assert(seqs::views(digests@) =~= seq![model.digest]);
            assert(pending@ =~= seq![0usize]);
            assert(pending@.contains(0usize)) by {
                assert(pending@[0] == 0usize);
            }
        }
        Ok(
            LockResolver {
                nodes,
                pending,
                at: None,
                edges: 0,
                digests,
                unique: bytes,
                processed: bytes,
            },
        )
    }

    fn first_place(&self) -> (place: usize)
        requires
            self.model().pending.len() > 0,
        ensures
            place == first_pending(self.model().nodes, self.model().pending),
            place < self.pending@.len(),
    {
        proof {
            use_type_invariant(self);
        }
        let ghost all = self.model().nodes;
        let mut place: usize = 0;
        let mut i: usize = 1;
        proof {
            assert(self.pending@.take(1).len() == 1);
        }
        while i < self.pending.len()
            invariant
                1 <= i <= self.pending.len(),
                all == self.model().nodes,
                all.len() == self.nodes@.len(),
                forall|k: int| 0 <= k < self.pending@.len() ==> #[trigger] self.pending@[k]
                    < self.nodes@.len(),
                place < i,
                place == first_pending(all, self.pending@.take(i as int)),
            decreases self.pending.len() - i,
        {
            let candidate: usize = self.pending[i];
            let best: usize = self.pending[place];
            proof {
                assert(self.pending@.take(i + 1).drop_last() =~= self.pending@.take(i as int));
                assert(self.pending@.take(i + 1).last() == candidate);
                assert(self.pending@.take(i + 1)[place as int] == best);
                assert(self.pending@[i as int] < self.nodes@.len());
                assert(self.pending@[place as int] < self.nodes@.len());
                assert(all[candidate as int] == self.nodes@[candidate as int]@);
                assert(all[best as int] == self.nodes@[best as int]@);
            }
            if self.nodes[candidate].source.is_before(&self.nodes[best].source) {
                place = i;
            }
            i = i + 1;
        }
        proof {
            assert(self.pending@.take(self.pending@.len() as int) =~= self.pending@);
        }
        place
    }

    fn has_components(&self) -> (any: bool)
        ensures
            any == any_components(self.model().nodes),
    {
        let ghost all = self.model().nodes;
        let mut i: usize = 0;
        while i < self.nodes.len()
            invariant
                i <= self.nodes.len(),
                all == self.model().nodes,
                all == seqs::views(self.nodes@),
                forall|k: int| 0 <= k < i ==> (#[trigger] all[k]).components.len() == 0,
            decreases self.nodes.len() - i,
        {
            assert(all[i as int] == self.nodes@[i as int]@);
            if self.nodes[i].components.len() > 0 {
                return true;
            }
            i = i + 1;
        }
        false
    }

    /// Goes on until a pack is needed, and says where. Once it is finished, every dependency
    /// leads to a pack with the declared package.
    pub fn next(self, has_profile: bool) -> (step: (LockResolver, ResolveRequest))
        ensures
            step.0.model() == settle(self.model(), has_profile).0,
            step.1@ == settle(self.model(), has_profile).1,
            is_sound(step.0.model()),
            step.1 is Finished ==> is_closed_graph(step.0.model().nodes) && (has_profile
                || !any_components(step.0.model().nodes)),
    {
        proof {
            use_type_invariant(&self);
        }
        let ghost start = self.model();
        let mut resolver = self;
        loop
            invariant
                start == self.model(),
                is_sound(resolver.model()),
                settle(resolver.model(), has_profile) == settle(start, has_profile),
            decreases resolver.model().pending.len(), remaining(resolver.model()),
        {
            let (moved, request) = resolver.step(has_profile);
            match request {
                Some(request) => {
                    proof {
                        use_type_invariant(&moved);
                    }
                    return (moved, request);
                },
                None => {
                    proof {
                        use_type_invariant(&moved);
                    }
                    resolver = moved;
                },
            }
        }
    }

    fn step(self, has_profile: bool) -> (step: (LockResolver, Option<ResolveRequest>))
        ensures
            match step.1 {
                Some(request) => step.0.model() == settle(self.model(), has_profile).0 && request@
                    == settle(self.model(), has_profile).1 && (request is Finished
                    ==> is_closed_graph(step.0.model().nodes) && (has_profile
                    || !any_components(step.0.model().nodes))),
                None => settle(step.0.model(), has_profile) == settle(self.model(), has_profile)
                    && (step.0.model().pending.len() < self.model().pending.len() || (
                step.0.model().pending.len() == self.model().pending.len() && 0 <= remaining(
                    step.0.model(),
                ) < remaining(self.model()))),
            },
    {
        match self.at {
            None => self.open_next(has_profile),
            Some((node, next)) => self.look_at(node, next, has_profile),
        }
    }

    fn open_next(self, has_profile: bool) -> (step: (LockResolver, Option<ResolveRequest>))
        requires
            self.model().at is None,
        ensures
            match step.1 {
                Some(request) => step.0.model() == settle(self.model(), has_profile).0 && request@
                    == settle(self.model(), has_profile).1 && (request is Finished
                    ==> is_closed_graph(step.0.model().nodes) && (has_profile
                    || !any_components(step.0.model().nodes))),
                None => settle(step.0.model(), has_profile) == settle(self.model(), has_profile)
                    && step.0.model().pending.len() < self.model().pending.len(),
            },
    {
        proof {
            use_type_invariant(&self);
        }
        let ghost before = self.model();
        if self.pending.len() == 0 {
            proof {
                assert forall|n: int, d: int|
                    0 <= n < before.nodes.len() && 0 <= d
                        < before.nodes[n].dependencies.len() implies is_resolved(
                    before.nodes,
                    #[trigger] before.nodes[n].dependencies[d],
                ) by {
                    assert(d < looked_at(before, n));
                }
            }
            if !has_profile && self.has_components() {
                return (
                    self,
                    Some(
                        ResolveRequest::Failed(
                            LockOperationError::MissingFormatComponentExecutionProfile,
                        ),
                    ),
                );
            }
            return (self, Some(ResolveRequest::Finished));
        }
        let place: usize = self.first_place();
        let node: usize = self.pending[place];
        proof {
            assert(self.pending@[place as int] < self.nodes@.len());
            assert(before.nodes[node as int] == self.nodes@[node as int]@);
            assert(before.nodes[node as int].dependencies.len()
                == self.nodes@[node as int].dependencies@.len());
        }
        let edges: usize = self.edges.saturating_add(self.nodes[node].dependencies.len());
        let LockResolver { nodes, pending, at: _, edges: _, digests, unique, processed } = self;
        let mut pending = pending;
        let ghost old_pending = pending@;
        let _ = pending.remove(place);
        let ghost after = ResolverModel {
            pending: pending@,
            edges: edges as int,
            at: Some((node, 0usize)),
            ..before
        };
        proof {
            assert(pending@ =~= old_pending.remove(place as int));
            lemma_opening_stays_sound(before, place as int, edges as int);
        }
        let opened = LockResolver {
            nodes,
            pending,
            at: Some((node, 0)),
            edges,
            digests,
            unique,
            processed,
        };
        assert(opened.model() == after);
        if edges > MAX_LOCK_EDGES {
            return (
                opened,
                Some(
                    ResolveRequest::Failed(
                        LockOperationError::Validation {
                            problem: LockProblem::TooManyEdges {
                                limit: MAX_LOCK_EDGES,
                                actual: edges,
                            },
                        },
                    ),
                ),
            );
        }
        (opened, None)
    }

    fn look_at(self, node: usize, next: usize, has_profile: bool) -> (step: (
        LockResolver,
        Option<ResolveRequest>,
    ))
        requires
            self.model().at == Some((node, next)),
        ensures
            match step.1 {
                Some(request) => step.0.model() == settle(self.model(), has_profile).0 && request@
                    == settle(self.model(), has_profile).1 && request !is Finished,
                None => settle(step.0.model(), has_profile) == settle(self.model(), has_profile)
                    && step.0.model().pending == self.model().pending && 0 <= remaining(
                    step.0.model(),
                ) < remaining(self.model()),
            },
    {
        proof {
            use_type_invariant(&self);
        }
        let ghost before = self.model();
        proof {
            assert(before.nodes[node as int] == self.nodes@[node as int]@);
            assert(before.nodes[node as int].dependencies.len()
                == self.nodes@[node as int].dependencies@.len());
        }
        let count: usize = self.nodes[node].dependencies.len();
        if next >= count {
            let LockResolver { nodes, pending, at: _, edges, digests, unique, processed } = self;
            proof {
                lemma_leaving_stays_sound(before);
            }
            return (
                LockResolver { nodes, pending, at: None, edges, digests, unique, processed },
                None,
            );
        }
        let ghost dependency = before.nodes[node as int].dependencies[next as int];
        proof {
            assert(dependency == self.nodes@[node as int].dependencies@[next as int]@);
            lemma_node_index(before.nodes, dependency.source);
        }
        let index: usize = place_of(&self.nodes, &self.nodes[node].dependencies[next].source);
        if index >= self.nodes.len() {
            if self.nodes.len() >= MAX_LOCK_NODES {
                return (
                    self,
                    Some(
                        ResolveRequest::Failed(
                            LockOperationError::Validation {
                                problem: LockProblem::TooManyNodes {
                                    limit: MAX_LOCK_NODES,
                                    actual: MAX_LOCK_NODES + 1,
                                },
                            },
                        ),
                    ),
                );
            }
            let source = self.nodes[node].dependencies[next].source.copied();
            return (self, Some(ResolveRequest::Discover { source }));
        }
        assert(before.nodes[index as int] == self.nodes@[index as int]@);
        if !text_equal(
            self.nodes[index].package.as_str(),
            self.nodes[node].dependencies[next].package.as_str(),
        ) {
            let failure = LockOperationError::PackageMismatch {
                source_identity: self.nodes[node].dependencies[next].source.copied(),
                expected: self.nodes[node].dependencies[next].package.clone(),
                actual: self.nodes[index].package.clone(),
            };
            return (self, Some(ResolveRequest::Failed(failure)));
        }
        let LockResolver { nodes, pending, at: _, edges, digests, unique, processed } = self;
        proof {
            assert(is_resolved(before.nodes, dependency));
            lemma_advancing_stays_sound(before);
        }
        (
            LockResolver {
                nodes,
                pending,
                at: Some((node, next + 1)),
                edges,
                digests,
                unique,
                processed,
            },
            None,
        )
    }

    /// Tells whether the resolver asked for a pack.
    pub open spec fn is_waiting(&self) -> bool {
        match self.model().at {
            Some((node, next)) => next < self.model().nodes[node as int].dependencies.len()
                && node_index(
                self.model().nodes,
                self.model().nodes[node as int].dependencies[next as int].source,
            ) >= self.model().nodes.len() && self.model().nodes.len() < MAX_LOCK_NODES,
            None => false,
        }
    }

    /// Takes the pack that the resolver asked for. A resolver that asked for nothing is handed
    /// back as it is.
    pub fn supply(self, found: DiscoveredNode, bytes: u64) -> (resolver: Result<
        LockResolver,
        LockOperationError,
    >)
        ensures
            if self.is_waiting() {
                match supplied(self.model(), found@, bytes) {
                    Ok(model) => resolver matches Ok(next) && next.model() == model,
                    Err(failure) => resolver matches Err(said) && said@ == failure,
                }
            } else {
                resolver matches Ok(next) && next.model() == self.model()
            },
    {
        proof {
            use_type_invariant(&self);
        }
        let ghost before = self.model();
        let (owner, next) = match self.at {
            Some(place) => place,
            None => {
                return Ok(self);
            },
        };
        proof {
            assert(before.nodes[owner as int] == self.nodes@[owner as int]@);
            assert(before.nodes[owner as int].dependencies.len()
                == self.nodes@[owner as int].dependencies@.len());
        }
        if next >= self.nodes[owner].dependencies.len() || self.nodes.len() >= MAX_LOCK_NODES {
            return Ok(self);
        }
        let ghost dependency = before.nodes[owner as int].dependencies[next as int];
        proof {
            assert(dependency == self.nodes@[owner as int].dependencies@[next as int]@);
            lemma_node_index(before.nodes, dependency.source);
        }
        let index: usize = place_of(&self.nodes, &self.nodes[owner].dependencies[next].source);
        if index < self.nodes.len() {
            return Ok(self);
        }
        let processed: u64 = self.processed.saturating_add(bytes);
        if processed > MAX_PROCESSED_PACK_BYTES {
            return Err(
                exceeded_limit("processed pack bytes", MAX_PROCESSED_PACK_BYTES, processed),
            );
        }
        let known = holds(&self.digests, found.digest.as_str());
        proof {
            seqs::lemma_first_index_of(before.digests, found@.digest);
            if before.digests.contains(found@.digest) {
                let k = choose|k: int|
                    0 <= k < before.digests.len() && before.digests[k] == found@.digest;
                assert(before.digests[k] == found@.digest);
            }
        }
        let unique: u64 = if known {
            self.unique
        } else {
            self.unique.saturating_add(bytes)
        };
        if unique > MAX_GRAPH_OBJECT_BYTES {
            return Err(exceeded_limit("unique pack bytes", MAX_GRAPH_OBJECT_BYTES, unique));
        }
        if !text_equal(
            found.package.as_str(),
            self.nodes[owner].dependencies[next].package.as_str(),
        ) {
            return Err(
                LockOperationError::PackageMismatch {
                    source_identity: self.nodes[owner].dependencies[next].source.copied(),
                    expected: self.nodes[owner].dependencies[next].package.clone(),
                    actual: found.package,
                },
            );
        }
        let source = self.nodes[owner].dependencies[next].source.copied();
        let LockResolver { nodes, pending, at: _, edges, digests, unique: _, processed: _ } = self;
        let ghost old_digests = digests@;
        let ghost old_nodes = nodes@;
        let ghost old_pending = pending@;
        let mut digests = digests;
        if !known {
            digests.push(found.digest.clone());
            assert(seqs::views(digests@) =~= seqs::views(old_digests).push(found@.digest));
        }
        let node = DiscoveredNode {
            source,
            digest: found.digest,
            package: found.package,
            dependencies: found.dependencies,
            components: found.components,
        };
        let ghost model = node@;
        let mut nodes = nodes;
        let mut pending = pending;
        pending.push(nodes.len());
        nodes.push(node);
        proof {
            assert(seqs::views(nodes@) =~= seqs::views(old_nodes).push(model));
            assert(pending@ =~= old_pending.push(before.nodes.len() as usize));
            assert(model == DiscoveredNode { source: dependency.source, ..found@ });
            lemma_supplying_stays_sound(before, found@, bytes);
        }
        Ok(
            LockResolver {
                nodes,
                pending,
                at: Some((owner, next + 1)),
                edges,
                digests,
                unique,
                processed,
            },
        )
    }

    /// Returns the number of bytes in all packs processed.
    pub fn processed(&self) -> (bytes: u64)
        ensures
            bytes == self.model().processed,
    {
        self.processed
    }

    /// Hands out the packs of a graph.
    pub fn into_nodes(self) -> (nodes: Vec<DiscoveredNode>)
        ensures
            seqs::views(nodes@) == self.model().nodes,
            is_sound(self.model()),
    {
        proof {
            use_type_invariant(&self);
        }
        self.nodes
    }
}

/// How much of the current pack is left.
pub open spec fn remaining(model: ResolverModel) -> int {
    match model.at {
        None => 0,
        Some((node, next)) => if next >= model.nodes[node as int].dependencies.len() {
            1
        } else {
            model.nodes[node as int].dependencies.len() - next + 1
        },
    }
}

proof fn lemma_opening_stays_sound(model: ResolverModel, place: int, edges: int)
    requires
        is_sound(model),
        model.at is None,
        0 <= place < model.pending.len(),
        0 <= edges <= usize::MAX,
    ensures
        is_sound(
            ResolverModel {
                pending: model.pending.remove(place),
                edges,
                at: Some((model.pending[place], 0usize)),
                ..model
            },
        ),
{
    let node = model.pending[place];
    let rest = model.pending.remove(place);
    let after = ResolverModel { pending: rest, edges, at: Some((node, 0usize)), ..model };
    assert forall|i: int| 0 <= i < rest.len() implies #[trigger] rest[i] < model.nodes.len() by {
        if i < place {
            assert(rest[i] == model.pending[i]);
        } else {
            assert(rest[i] == model.pending[i + 1]);
        }
    }
    assert forall|i: int, j: int| 0 <= i < j < rest.len() implies rest[i] != rest[j] by {
        let x = if i < place {
            i
        } else {
            i + 1
        };
        let y = if j < place {
            j
        } else {
            j + 1
        };
        assert(rest[i] == model.pending[x] && rest[j] == model.pending[y]);
    }
    assert(!rest.contains(node)) by {
        if rest.contains(node) {
            let i = choose|i: int| 0 <= i < rest.len() && rest[i] == node;
            let x = if i < place {
                i
            } else {
                i + 1
            };
            assert(model.pending[x] == model.pending[place]);
        }
    }
    assert forall|n: int, d: int|
        0 <= n < model.nodes.len() && 0 <= d < looked_at(after, n) implies is_resolved(
        model.nodes,
        #[trigger] model.nodes[n].dependencies[d],
    ) by {
        if n != node {
            if model.pending.contains(n as usize) {
                let i = choose|i: int| 0 <= i < model.pending.len() && model.pending[i] == n as usize;
                let x = if i < place {
                    i
                } else {
                    i - 1
                };
                assert(rest[x] == n as usize);
            }
            assert(d < looked_at(model, n));
        }
    }
}

proof fn lemma_leaving_stays_sound(model: ResolverModel)
    requires
        is_sound(model),
        model.at matches Some((node, next)) && next
            >= model.nodes[node as int].dependencies.len(),
    ensures
        is_sound(ResolverModel { at: None, ..model }),
{
    let after = ResolverModel { at: None, ..model };
    assert forall|n: int, d: int|
        0 <= n < model.nodes.len() && 0 <= d < looked_at(after, n) implies is_resolved(
        model.nodes,
        #[trigger] model.nodes[n].dependencies[d],
    ) by {
        assert(d < looked_at(model, n));
    }
}

proof fn lemma_advancing_stays_sound(model: ResolverModel)
    requires
        is_sound(model),
        model.at matches Some((node, next)) && next < model.nodes[node as int].dependencies.len()
            && next < usize::MAX && is_resolved(
            model.nodes,
            model.nodes[node as int].dependencies[next as int],
        ),
    ensures
        ({
            let (node, next) = model.at->Some_0;
            is_sound(ResolverModel { at: Some((node, (next + 1) as usize)), ..model })
        }),
{
    let (node, next) = model.at->Some_0;
    let after = ResolverModel { at: Some((node, (next + 1) as usize)), ..model };
    assert forall|n: int, d: int|
        0 <= n < model.nodes.len() && 0 <= d < looked_at(after, n) implies is_resolved(
        model.nodes,
        #[trigger] model.nodes[n].dependencies[d],
    ) by {
        if n != node || d != next {
            assert(d < looked_at(model, n));
        }
    }
}

proof fn lemma_supplying_stays_sound(model: ResolverModel, node: NodeModel, bytes: u64)
    requires
        is_sound(model),
        model.at matches Some((owner, next)) && next < model.nodes[owner as int].dependencies.len()
            && next < usize::MAX && node_index(
            model.nodes,
            model.nodes[owner as int].dependencies[next as int].source,
        ) >= model.nodes.len(),
        model.nodes.len() < MAX_LOCK_NODES,
    ensures
        supplied(model, node, bytes) matches Ok(after) ==> is_sound(after),
{
    if let Ok(after) = supplied(model, node, bytes) {
        let (owner, next) = model.at->Some_0;
        let dependency = model.nodes[owner as int].dependencies[next as int];
        let last = model.nodes.len() as int;
        let added = after.nodes[last];
        lemma_node_index(model.nodes, dependency.source);
        assert(added.source == dependency.source && added.package == dependency.package);
        assert forall|i: int| 0 <= i < after.pending.len() implies #[trigger] after.pending[i]
            < after.nodes.len() by {
            if i < model.pending.len() {
                assert(model.pending[i] < model.nodes.len());
            }
        }
        assert forall|i: int, j: int| 0 <= i < j < after.pending.len() implies after.pending[i]
            != after.pending[j] by {
            assert(model.pending[i] < model.nodes.len());
        }
        assert(!after.pending.contains(owner)) by {
            if after.pending.contains(owner) {
                let i = choose|i: int| 0 <= i < after.pending.len() && after.pending[i] == owner;
                if i < model.pending.len() {
                    assert(model.pending[i] == owner);
                }
            }
        }
        assert forall|i: int, j: int| 0 <= i < j < after.nodes.len() implies (
        #[trigger] after.nodes[i]).source != (#[trigger] after.nodes[j]).source by {
            assert(after.nodes[i] == model.nodes[i]);
            if j < last {
                assert(after.nodes[j] == model.nodes[j]);
            }
        }
        assert forall|n: int, d: int|
            0 <= n < after.nodes.len() && 0 <= d < looked_at(after, n) implies is_resolved(
            after.nodes,
            #[trigger] after.nodes[n].dependencies[d],
        ) by {
            if n == last {
                assert(after.pending[after.pending.len() - 1] == last as usize);
                assert(after.pending.contains(last as usize));
            } else {
                assert(after.nodes[n] == model.nodes[n]);
                if model.pending.contains(n as usize) {
                    let i = choose|i: int|
                        0 <= i < model.pending.len() && model.pending[i] == n as usize;
                    assert(after.pending[i] == n as usize);
                }
                if n == owner && d == next {
                    assert(after.nodes[last].source == dependency.source);
                } else {
                    assert(d < looked_at(model, n));
                    let wanted = model.nodes[n].dependencies[d];
                    assert(is_resolved(model.nodes, wanted));
                    let j = choose|j: int|
                        0 <= j < model.nodes.len() && (#[trigger] model.nodes[j]).source
                            == wanted.source && model.nodes[j].package == wanted.package;
                    assert(after.nodes[j] == model.nodes[j]);
                }
            }
        }
    }
}

/// How many source descriptors may be pinned: what a limit on open files leaves after a
/// reserve.
pub open spec fn descriptor_limit(open_file_soft_limit: Option<u64>) -> int {
    match open_file_soft_limit {
        None => durability::available_descriptors(INFRASTRUCTURE_MAXIMUM),
        Some(limit) => durability::available_descriptors(
            if limit < INFRASTRUCTURE_MAXIMUM {
                limit
            } else {
                INFRASTRUCTURE_MAXIMUM
            },
        ),
    }
}

/// Returns how many source descriptors may be pinned.
pub fn pinned_descriptor_limit(open_file_soft_limit: Option<u64>) -> (limit: u64)
    ensures
        limit == descriptor_limit(open_file_soft_limit),
{
    let available: u64 = match open_file_soft_limit {
        None => INFRASTRUCTURE_MAXIMUM,
        Some(limit) => if limit < INFRASTRUCTURE_MAXIMUM {
            limit
        } else {
            INFRASTRUCTURE_MAXIMUM
        },
    };
    descriptors_left(available)
}

/// Counts the descriptors that one more local source pins.
pub fn charge_descriptors(pinned: u64, required: u64, limit: u64) -> (charged: Result<
    u64,
    LockOperationError,
>)
    ensures
        ({
            let actual = saturating(pinned as int, required as int, u64::MAX as int);
            if actual > limit {
                charged matches Err(failure) && failure@ == exceeded(
                    "pinned source descriptors"@,
                    limit,
                    actual,
                )
            } else {
                charged matches Ok(total) && total == actual
            }
        }),
{
    let actual: u64 = pinned.saturating_add(required);
    if actual > limit {
        return Err(exceeded_limit("pinned source descriptors", limit, actual));
    }
    Ok(actual)
}

/// A discovered pack is taken up as it was discovered: at the source that its dependency declares,
/// under the package that the dependency declares, with its own digest, dependencies and
/// components. The packs before it stay, and it is still to be gone through.
pub proof fn lemma_discovered_packs_are_taken_up(
    model: ResolverModel,
    node: NodeModel,
    bytes: u64,
    owner: usize,
    next: usize,
)
    requires
        model.at == Some((owner, next)),
        next < usize::MAX,
        owner < model.nodes.len() < usize::MAX,
        next < model.nodes[owner as int].dependencies.len(),
        0 <= model.unique <= u64::MAX,
        0 <= model.processed <= u64::MAX,
        supplied(model, node, bytes) is Ok,
    ensures
        ({
            let after = supplied(model, node, bytes)->Ok_0;
            let dependency = model.nodes[owner as int].dependencies[next as int];
            let taken = after.nodes.last();
            &&& after.nodes.len() == model.nodes.len() + 1
            &&& model.nodes.is_prefix_of(after.nodes)
            &&& taken.source == dependency.source
            &&& taken.package == dependency.package
            &&& taken.package == node.package
            &&& taken.digest == node.digest
            &&& taken.dependencies == node.dependencies
            &&& taken.components == node.components
            &&& after.pending.len() == model.pending.len() + 1
            &&& model.pending.is_prefix_of(after.pending)
            &&& after.pending.last() == model.nodes.len()
            &&& after.at == Some((owner, (next + 1) as usize))
            &&& after.processed == model.processed + bytes
            &&& after.digests.contains(node.digest)
            &&& after.unique == if model.digests.contains(node.digest) {
                model.unique
            } else {
                model.unique + bytes
            }
        }),
{
    seqs::lemma_first_index_of(model.digests, node.digest);
    let after = supplied(model, node, bytes)->Ok_0;
    if !model.digests.contains(node.digest) {
        assert(after.digests[model.digests.len() as int] == node.digest);
    }
}

/// A discovered pack is refused exactly where the packs become too large, counted once for each
/// digest or once for each time, or where its package is not the declared one.
pub proof fn lemma_discovered_packs_are_refused(
    model: ResolverModel,
    node: NodeModel,
    bytes: u64,
    owner: usize,
    next: usize,
)
    requires
        model.at == Some((owner, next)),
        0 <= model.unique <= MAX_GRAPH_OBJECT_BYTES,
        0 <= model.processed <= MAX_PROCESSED_PACK_BYTES,
    ensures
        supplied(model, node, bytes) is Ok <==> {
            &&& model.processed + bytes <= MAX_PROCESSED_PACK_BYTES
            &&& model.digests.contains(node.digest) || model.unique + bytes
                <= MAX_GRAPH_OBJECT_BYTES
            &&& node.package == model.nodes[owner as int].dependencies[next as int].package
        },
        supplied(model, node, bytes) matches Err(LockOperationError::PackageMismatch {
            source_identity,
            expected,
            actual,
        }) ==> source_identity == model.nodes[owner as int].dependencies[next as int].source
            && expected == model.nodes[owner as int].dependencies[next as int].package && actual
            == node.package && actual != expected,
{
    seqs::lemma_first_index_of(model.digests, node.digest);
}

/// Only a source that some pack of the graph declares, and that no pack of the graph is at, is to
/// be discovered; a refused package is that of a pack at a declared source.
pub proof fn lemma_only_declared_sources_are_discovered(model: ResolverModel, has_profile: bool)
    requires
        is_sound(model),
        forall|n: int|
            0 <= n < model.nodes.len() ==> (#[trigger] model.nodes[n]).dependencies.len()
                <= usize::MAX,
    ensures
        match settle(model, has_profile).1 {
            ResolveRequest::Discover { source } => {
                &&& exists|n: int, d: int|
                    0 <= n < model.nodes.len() && 0 <= d < model.nodes[n].dependencies.len() && (
                    #[trigger] model.nodes[n].dependencies[d]).source == source
                &&& forall|k: int|
                    0 <= k < model.nodes.len() ==> (#[trigger] model.nodes[k]).source != source
                &&& model.nodes.len() < MAX_LOCK_NODES
            },
            ResolveRequest::Failed(error) => error matches LockOperationError::PackageMismatch {
                source_identity,
                expected,
                actual,
            } ==> expected != actual && exists|k: int|
                0 <= k < model.nodes.len() && (#[trigger] model.nodes[k]).source == source_identity
                    && model.nodes[k].package == actual,
            ResolveRequest::Finished => has_profile || !any_components(model.nodes),
        },
        settle(model, has_profile).0.nodes == model.nodes,
        settle(model, has_profile).0.processed == model.processed,
    decreases model.pending.len(), remaining(model),
{
    match model.at {
        None => {
            if model.pending.len() > 0 {
                let place = first_pending(model.nodes, model.pending);
                let node = model.pending[place];
                let edges = saturating(
                    model.edges,
                    model.nodes[node as int].dependencies.len() as int,
                    usize::MAX as int,
                );
                lemma_first_pending(model.nodes, model.pending);
                if edges <= MAX_LOCK_EDGES {
                    lemma_opening_stays_sound(model, place, edges);
                    lemma_only_declared_sources_are_discovered(
                        ResolverModel {
                            pending: model.pending.remove(place),
                            edges,
                            at: Some((node, 0)),
                            ..model
                        },
                        has_profile,
                    );
                }
            }
        },
        Some((node, next)) => {
            if next >= model.nodes[node as int].dependencies.len() {
                lemma_leaving_stays_sound(model);
                lemma_only_declared_sources_are_discovered(
                    ResolverModel { at: None, ..model },
                    has_profile,
                );
            } else {
                let dependency = model.nodes[node as int].dependencies[next as int];
                let index = node_index(model.nodes, dependency.source);
                lemma_node_index(model.nodes, dependency.source);
                if index < model.nodes.len() && model.nodes[index].package == dependency.package
                    && next < usize::MAX {
                    lemma_advancing_stays_sound(model);
                    lemma_only_declared_sources_are_discovered(
                        ResolverModel { at: Some((node, (next + 1) as usize)), ..model },
                        has_profile,
                    );
                }
            }
        },
    }
}

/// The pack that is gone through next is the first of those left, in the order of their sources.
pub proof fn lemma_first_pending(nodes: Seq<NodeModel>, pending: Seq<usize>)
    requires
        pending.len() > 0,
    ensures
        0 <= first_pending(nodes, pending) < pending.len(),
        forall|k: int|
            0 <= k < pending.len() ==> !graph_sources::source_less(
                nodes[#[trigger] pending[k] as int].source,
                nodes[pending[first_pending(nodes, pending)] as int].source,
            ),
    decreases pending.len(),
{
    let chosen = first_pending(nodes, pending);
    if pending.len() == 1 {
        let source = nodes[pending[0] as int].source;
        graph_sources::lemma_sources_are_ordered(source, source, source);
    } else {
        let fewer = pending.drop_last();
        lemma_first_pending(nodes, fewer);
        let before = first_pending(nodes, fewer);
        let last = nodes[pending.last() as int].source;
        let held = nodes[pending[before] as int].source;
        assert(fewer[before] == pending[before]);
        assert forall|k: int| 0 <= k < pending.len() implies !graph_sources::source_less(
            nodes[#[trigger] pending[k] as int].source,
            nodes[pending[chosen] as int].source,
        ) by {
            let other = nodes[pending[k] as int].source;
            graph_sources::lemma_sources_are_ordered(last, last, last);
            if k < fewer.len() {
                assert(fewer[k] == pending[k]);
                if chosen != before {
                    graph_sources::lemma_sources_are_ordered(other, last, held);
                }
            }
        }
    }
}

} // verus!
