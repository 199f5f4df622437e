//! The packs of a lock, once its graph is resolved.

use vstd::prelude::*;

use crate::error::{EngineError, LockOperationError};
use crate::graph_sources;
use crate::graph_sources::LockSource;
use crate::lock_discovery;
use crate::lock_discovery::source_error;
use crate::lock_graph;
use crate::lock_graph::{
    place_of, Dependency, DiscoveredNode, NodeModel, MAX_PROCESSED_PACK_BYTES,
};
use crate::seqs;
use crate::text::text_equal;

verus! {

/// A dependency in a lock; `T` is the type of text.
#[derive(Clone, Debug, PartialEq, Eq)]
pub struct LockedDependency<T = String> {
    /// What the pack calls it.
    pub alias: T,
    /// The node that it leads to.
    pub node_id: T,
}

impl View for LockedDependency<String> {
    type V = LockedDependency<Seq<char>>;

    open spec fn view(&self) -> LockedDependency<Seq<char>> {
        LockedDependency { alias: self.alias@, node_id: self.node_id@ }
    }
}

/// A component in a lock; `T` is the type of text.
#[derive(Clone, Debug, PartialEq, Eq)]
pub struct LockedComponent<T = String> {
    /// The component, as its pack declares it.
    pub declaration: T,
    /// The profile that executes it.
    pub execution_profile: T,
}

impl View for LockedComponent<String> {
    type V = LockedComponent<Seq<char>>;

    open spec fn view(&self) -> LockedComponent<Seq<char>> {
        LockedComponent {
            declaration: self.declaration@,
            execution_profile: self.execution_profile@,
        }
    }
}

/// A pack in a lock; `T` is the type of text, `D` that of its dependencies and `C` that of its
/// components.
#[derive(Clone, Debug, PartialEq, Eq)]
pub struct LockedPack<T = String, D = Vec<LockedDependency>, C = Vec<LockedComponent>> {
    pub node_id: T,
    pub package: T,
    pub source: LockSource<T>,
    pub digest: T,
    pub dependencies: D,
    pub components: C,
}

/// A pack in a lock, as contracts speak of it.
pub type LockedModel = LockedPack<
    Seq<char>,
    Seq<LockedDependency<Seq<char>>>,
    Seq<LockedComponent<Seq<char>>>,
>;

impl View for LockedPack<String, Vec<LockedDependency>, Vec<LockedComponent>> {
    type V = LockedPack<
        Seq<char>,
        Seq<LockedDependency<Seq<char>>>,
        Seq<LockedComponent<Seq<char>>>,
    >;

    open spec fn view(&self) -> LockedModel {
        LockedPack {
            node_id: self.node_id@,
            package: self.package@,
            source: self.source@,
            digest: self.digest@,
            dependencies: seqs::views(self.dependencies@),
            components: seqs::views(self.components@),
        }
    }
}

/// The packs of a lock and its root.
#[derive(Clone, Debug, PartialEq, Eq)]
pub struct LockedGraph {
    pub root_id: String,
    /// The packs, in the order of their sources.
    pub packs: Vec<LockedPack>,
}

/// A dependency under the identifier of the pack at its source.
pub open spec fn locked_dependency(
    nodes: Seq<NodeModel>,
    ids: Seq<Seq<char>>,
    dependency: Dependency<Seq<char>>,
) -> LockedDependency<Seq<char>> {
    LockedDependency {
        alias: dependency.alias,
        node_id: ids[lock_graph::node_index(nodes, dependency.source)],
    }
}

/// A pack as a lock holds it, given the identifiers of all packs and the profile that executes
/// components.
pub open spec fn locked_pack(
    nodes: Seq<NodeModel>,
    ids: Seq<Seq<char>>,
    profile: Option<Seq<char>>,
    index: int,
) -> LockedModel {
    let node = nodes[index];
    LockedPack {
        node_id: ids[index],
        package: node.package,
        source: node.source,
        digest: node.digest,
        dependencies: node.dependencies.map_values(
            |dependency: Dependency<Seq<char>>| locked_dependency(nodes, ids, dependency),
        ),
        components: node.components.map_values(
            |declaration: Seq<char>|
                LockedComponent { declaration, execution_profile: profile->Some_0 },
        ),
    }
}

/// A pack of a lock is one of the discovered packs: it has the identifier, the source, the
/// package and the digest of one of them, and calls its dependencies and components as that one
/// declares them.
pub open spec fn is_pack_of(
    pack: LockedModel,
    nodes: Seq<NodeModel>,
    ids: Seq<Seq<char>>,
) -> bool {
    exists|i: int|
        {
            &&& 0 <= i < nodes.len()
            &&& pack.source == (#[trigger] nodes[i]).source
            &&& pack.package == nodes[i].package
            &&& pack.digest == nodes[i].digest
            &&& pack.node_id == ids[i]
            &&& pack.dependencies.len() == nodes[i].dependencies.len()
            &&& pack.components.len() == nodes[i].components.len()
        }
}

/// Every pack of a lock keeps what was discovered at its source: its source, its package, its
/// digest, its own identifier, the aliases of its dependencies and the declarations of its
/// components, in their order. Every component is executed by the profile of the lock.
pub proof fn lemma_locked_packs_keep_their_identity(
    nodes: Seq<NodeModel>,
    ids: Seq<Seq<char>>,
    profile: Option<Seq<char>>,
    index: int,
)
    requires
        0 <= index < nodes.len(),
        ids.len() == nodes.len(),
    ensures
        ({
            let pack = locked_pack(nodes, ids, profile, index);
            &&& is_pack_of(pack, nodes, ids)
            &&& pack.source == nodes[index].source
            &&& pack.package == nodes[index].package
            &&& pack.digest == nodes[index].digest
            &&& pack.node_id == ids[index]
            &&& pack.dependencies.len() == nodes[index].dependencies.len()
            &&& forall|d: int|
                0 <= d < pack.dependencies.len() ==> (#[trigger] pack.dependencies[d]).alias
                    == nodes[index].dependencies[d].alias
            &&& pack.components.len() == nodes[index].components.len()
            &&& forall|c: int|
                0 <= c < pack.components.len() ==> (#[trigger] pack.components[c]).declaration
                    == nodes[index].components[c]
            &&& forall|c: int|
                0 <= c < pack.components.len() && profile is Some ==> Some(
                    (#[trigger] pack.components[c]).execution_profile,
                ) == profile
        }),
{
    let pack = locked_pack(nodes, ids, profile, index);
    assert(pack.source == nodes[index].source);
}

/// The sources of packs are different.
pub open spec fn has_distinct_sources(nodes: Seq<NodeModel>) -> bool {
    forall|i: int, j: int|
        0 <= i < j < nodes.len() ==> (#[trigger] nodes[i]).source != (#[trigger] nodes[j]).source
}

/// Packs stand in the order of their sources.
pub open spec fn is_in_source_order(packs: Seq<LockedModel>) -> bool {
    forall|i: int, j: int|
        0 <= i < j < packs.len() ==> graph_sources::source_less(
            (#[trigger] packs[i]).source,
            (#[trigger] packs[j]).source,
        )
}

/// Places that name the first packs in the order of their sources.
spec fn orders(nodes: Seq<NodeModel>, order: Seq<usize>, count: int) -> bool {
    &&& order.len() == count
    &&& forall|p: int| 0 <= p < order.len() ==> #[trigger] order[p] < count
    &&& forall|p: int, q: int|
        0 <= p < q < order.len() ==> graph_sources::source_less(
            nodes[#[trigger] order[p] as int].source,
            nodes[#[trigger] order[q] as int].source,
        )
    &&& forall|i: int| 0 <= i < count ==> order.contains(#[trigger] (i as usize))
}

proof fn lemma_insertion_orders(
    nodes: Seq<NodeModel>,
    order: Seq<usize>,
    count: usize,
    place: int,
)
    requires
        has_distinct_sources(nodes),
        count < nodes.len(),
        orders(nodes, order, count as int),
        0 <= place <= order.len(),
        forall|q: int|
            0 <= q < place ==> !graph_sources::source_less(
                nodes[count as int].source,
                nodes[#[trigger] order[q] as int].source,
            ),
        place < order.len() ==> graph_sources::source_less(
            nodes[count as int].source,
            nodes[order[place] as int].source,
        ),
    ensures
        orders(nodes, order.insert(place, count), count + 1),
{
    let longer = order.insert(place, count);
    let source = nodes[count as int].source;
    assert forall|p: int, q: int| 0 <= p < q < longer.len() implies graph_sources::source_less(
        nodes[#[trigger] longer[p] as int].source,
        nodes[#[trigger] longer[q] as int].source,
    ) by {
        if p < place {
            assert(longer[p] == order[p]);
            if q == place {
                assert(nodes[order[p] as int].source != source);
                graph_sources::lemma_sources_are_ordered(
                    source,
                    nodes[order[p] as int].source,
                    source,
                );
            } else if q > place {
                assert(longer[q] == order[q - 1]);
            } else {
                assert(longer[q] == order[q]);
            }
        } else if p == place {
            assert(longer[q] == order[q - 1]);
            if q - 1 > place {
                graph_sources::lemma_sources_are_ordered(
                    source,
                    nodes[order[place] as int].source,
                    nodes[order[q - 1] as int].source,
                );
            }
        } else {
            assert(longer[p] == order[p - 1] && longer[q] == order[q - 1]);
        }
    }
    assert forall|p: int| 0 <= p < longer.len() implies #[trigger] longer[p] < count + 1 by {
        if p < place {
            assert(longer[p] == order[p]);
        } else if p > place {
            assert(longer[p] == order[p - 1]);
        }
    }
    assert forall|i: int| 0 <= i < count + 1 implies longer.contains(#[trigger] (i as usize)) by {
        if i == count {
            assert(longer[place] == count);
        } else {
            assert(order.contains(i as usize));
            let p = choose|p: int| 0 <= p < order.len() && order[p] == i as usize;
            if p < place {
                assert(longer[p] == i as usize);
            } else {
                assert(longer[p + 1] == i as usize);
            }
        }
    }
}

fn insertion_place(nodes: &Vec<DiscoveredNode>, order: &Vec<usize>, index: usize) -> (place: usize)
    requires
        index < nodes@.len(),
        orders(seqs::views(nodes@), order@, index as int),
    ensures
        place <= order@.len(),
        forall|q: int|
            0 <= q < place ==> !graph_sources::source_less(
                seqs::views(nodes@)[index as int].source,
                seqs::views(nodes@)[#[trigger] order@[q] as int].source,
            ),
        place < order@.len() ==> graph_sources::source_less(
            seqs::views(nodes@)[index as int].source,
            seqs::views(nodes@)[order@[place as int] as int].source,
        ),
{
    let ghost all = seqs::views(nodes@);
    let mut place: usize = 0;
    while place < order.len()
        invariant
            place <= order.len(),
            index < nodes@.len(),
            all == seqs::views(nodes@),
            orders(all, order@, index as int),
            forall|q: int|
                0 <= q < place ==> !graph_sources::source_less(
                    all[index as int].source,
                    all[#[trigger] order@[q] as int].source,
                ),
        decreases order.len() - place,
    {
        let other: usize = order[place];
        proof {
            assert(order@[place as int] < index);
            assert(all[index as int] == nodes@[index as int]@);
            assert(all[other as int] == nodes@[other as int]@);
        }
        if nodes[index].source.is_before(&nodes[other].source) {
            return place;
        }
        place = place + 1;
    }
    place
}

fn source_order(nodes: &Vec<DiscoveredNode>) -> (order: Vec<usize>)
    requires
        has_distinct_sources(seqs::views(nodes@)),
    ensures
        orders(seqs::views(nodes@), order@, nodes@.len() as int),
{
    let ghost all = seqs::views(nodes@);
    let mut order: Vec<usize> = Vec::new();
    let mut i: usize = 0;
    while i < nodes.len()
        invariant
            i <= nodes.len(),
            all == seqs::views(nodes@),
            has_distinct_sources(all),
            orders(all, order@, i as int),
        decreases nodes.len() - i,
    {
        let place: usize = insertion_place(nodes, &order, i);
        proof {
            lemma_insertion_orders(all, order@, i, place as int);
        }
        order.insert(place, i);
        i = i + 1;
    }
    order
}

fn locked_dependencies(nodes: &Vec<DiscoveredNode>, ids: &Vec<String>, index: usize) -> (list: Vec<
    LockedDependency,
>)
    requires
        index < nodes@.len(),
        ids@.len() == nodes@.len(),
        lock_graph::is_closed_graph(seqs::views(nodes@)),
    ensures
        seqs::views(list@) == seqs::views(nodes@)[index as int].dependencies.map_values(
            |dependency: Dependency<Seq<char>>|
                locked_dependency(seqs::views(nodes@), seqs::views(ids@), dependency),
        ),
{
    let ghost all = seqs::views(nodes@);
    let ghost names = seqs::views(ids@);
    let ghost wanted = all[index as int].dependencies;
    proof {
        assert(all[index as int] == nodes@[index as int]@);
        assert(wanted.len() == nodes@[index as int].dependencies@.len());
    }
    let declared = &nodes[index].dependencies;
    let mut list: Vec<LockedDependency> = Vec::new();
    let mut i: usize = 0;
    while i < declared.len()
        invariant
            i <= declared.len(),
            index < nodes@.len(),
            ids@.len() == nodes@.len(),
            all == seqs::views(nodes@),
            names == seqs::views(ids@),
            wanted == all[index as int].dependencies,
            wanted == seqs::views(declared@),
            lock_graph::is_closed_graph(all),
            list@.len() == i,
            forall|k: int|
                0 <= k < i ==> (#[trigger] list@[k])@ == locked_dependency(all, names, wanted[k]),
        decreases declared.len() - i,
    {
        proof {
            assert(wanted[i as int] == declared@[i as int]@);
            assert(lock_graph::is_resolved(all, all[index as int].dependencies[i as int]));
            lock_graph::lemma_node_index(all, wanted[i as int].source);
        }
        let place: usize = place_of(nodes, &declared[i].source);
        proof {
            assert(names[place as int] == ids@[place as int]@);
        }
        list.push(
            LockedDependency { alias: declared[i].alias.clone(), node_id: ids[place].clone() },
        );
        i = i + 1;
    }
    proof {
        assert(seqs::views(list@) =~= wanted.map_values(
            |dependency: Dependency<Seq<char>>| locked_dependency(all, names, dependency),
        ));
    }
    list
}

fn locked_components(declared: &Vec<String>, profile: Option<&str>) -> (list: Vec<LockedComponent>)
    requires
        profile is Some || declared@.len() == 0,
    ensures
        seqs::views(list@) == seqs::views(declared@).map_values(
            |declaration: Seq<char>|
                LockedComponent { declaration, execution_profile: profile->Some_0@ },
        ),
{
    let mut list: Vec<LockedComponent> = Vec::new();
    let profile = match profile {
        Some(profile) => profile,
        None => {
            assert(seqs::views(list@) =~= seqs::views(declared@).map_values(
                |declaration: Seq<char>|
                    LockedComponent { declaration, execution_profile: profile->Some_0@ },
            ));
            return list;
        },
    };
    let ghost wanted = seqs::views(declared@);
    let mut i: usize = 0;
    while i < declared.len()
        invariant
            i <= declared.len(),
            wanted == seqs::views(declared@),
            list@.len() == i,
            forall|k: int|
                0 <= k < i ==> (#[trigger] list@[k])@ == (LockedComponent {
                    declaration: wanted[k],
                    execution_profile: profile@,
                }),
        decreases declared.len() - i,
    {
        assert(wanted[i as int] == declared@[i as int]@);
        list.push(
            LockedComponent {
                declaration: declared[i].clone(),
                execution_profile: profile.to_owned(),
            },
        );
        i = i + 1;
    }
    proof {
        assert(seqs::views(list@) =~= wanted.map_values(
            |declaration: Seq<char>| LockedComponent { declaration, execution_profile: profile@ },
        ));
    }
    list
}

/// A text that may be missing, as contracts speak of it.
pub open spec fn profile_view(profile: Option<&str>) -> Option<Seq<char>> {
    match profile {
        Some(text) => Some(text@),
        None => None,
    }
}

/// Puts the packs of a resolved graph into a lock: in the order of their sources, every
/// dependency under the identifier of the pack that it leads to, every component with the
/// profile that executes it. `ids` are the identifiers of the packs, place by place.
pub fn locked_nodes(nodes: &Vec<DiscoveredNode>, ids: &Vec<String>, profile: Option<&str>) -> (graph:
    LockedGraph)
    requires
        ids@.len() == nodes@.len(),
        nodes@.len() > 0,
        seqs::views(nodes@)[0].source is Root,
        has_distinct_sources(seqs::views(nodes@)),
        lock_graph::is_closed_graph(seqs::views(nodes@)),
        profile is Some || !lock_graph::any_components(seqs::views(nodes@)),
    ensures
        graph.root_id@ == seqs::views(ids@)[lock_graph::node_index(
            seqs::views(nodes@),
            LockSource::Root,
        )],
        graph.packs@.len() == nodes@.len(),
        is_in_source_order(seqs::views(graph.packs@)),
        forall|i: int|
            0 <= i < nodes@.len() ==> seqs::views(graph.packs@).contains(
                #[trigger] locked_pack(
                    seqs::views(nodes@),
                    seqs::views(ids@),
                    profile_view(profile),
                    i,
                ),
            ),
        forall|k: int|
            0 <= k < graph.packs@.len() ==> is_pack_of(
                #[trigger] graph.packs@[k]@,
                seqs::views(nodes@),
                seqs::views(ids@),
            ),
        graph.packs@[0].source is Root,
        graph.root_id@ == graph.packs@[0].node_id@,
{
    let ghost all = seqs::views(nodes@);
    let ghost names = seqs::views(ids@);
    let ghost executor = profile_view(profile);
    let order = source_order(nodes);
    let mut packs: Vec<LockedPack> = Vec::new();
    let mut i: usize = 0;
    while i < order.len()
        invariant
            i <= order.len(),
            all == seqs::views(nodes@),
            names == seqs::views(ids@),
            executor == profile_view(profile),
            ids@.len() == nodes@.len(),
            orders(all, order@, nodes@.len() as int),
            lock_graph::is_closed_graph(all),
            profile is Some || !lock_graph::any_components(all),
            packs@.len() == i,
            forall|k: int|
                0 <= k < i ==> (#[trigger] packs@[k])@ == locked_pack(
                    all,
                    names,
                    executor,
                    order@[k] as int,
                ),
        decreases order.len() - i,
    {
        let index: usize = order[i];
        proof {
            assert(order@[i as int] < nodes@.len());
            assert(all[index as int] == nodes@[index as int]@);
            assert(all[index as int].components.len() == nodes@[index as int].components@.len());
            assert(names[index as int] == ids@[index as int]@);
        }
        let node = &nodes[index];
        let pack = LockedPack {
            node_id: ids[index].clone(),
            package: node.package.clone(),
            source: node.source.copied(),
            digest: node.digest.clone(),
            dependencies: locked_dependencies(nodes, ids, index),
            components: locked_components(&node.components, profile),
        };
        proof {
            let expected = locked_pack(all, names, executor, index as int);
            assert(pack@.components =~= expected.components);
            assert(pack@ == expected);
        }
        packs.push(pack);
        i = i + 1;
    }
    proof {
        let listed = seqs::views(packs@);
        assert forall|i: int, j: int| 0 <= i < j < listed.len() implies graph_sources::source_less(
            (#[trigger] listed[i]).source,
            (#[trigger] listed[j]).source,
        ) by {
            assert(listed[i] == packs@[i]@ && listed[j] == packs@[j]@);
            assert(graph_sources::source_less(
                all[order@[i] as int].source,
                all[order@[j] as int].source,
            ));
        }
        assert forall|i: int| 0 <= i < nodes@.len() implies listed.contains(
            #[trigger] locked_pack(all, names, executor, i),
        ) by {
            assert(order@.contains(i as usize));
            let p = choose|p: int| 0 <= p < order@.len() && order@[p] == i as usize;
            assert(listed[p] == packs@[p]@);
        }
        assert forall|k: int| 0 <= k < packs@.len() implies is_pack_of(
            #[trigger] packs@[k]@,
            all,
            names,
        ) by {
            lemma_locked_packs_keep_their_identity(all, names, executor, order@[k] as int);
        }
        lock_graph::lemma_node_index(all, LockSource::Root);
        assert(all[0] == nodes@[0]@);
        assert(listed.contains(locked_pack(all, names, executor, 0)));
        let first = choose|p: int|
            0 <= p < listed.len() && listed[p] == locked_pack(all, names, executor, 0);
        lemma_root_pack_is_first(listed, first);
        assert(listed[0] == packs@[0]@);
    }
    let root: usize = place_of(nodes, &LockSource::Root);
    proof {
        assert(names[root as int] == ids@[root as int]@);
    }
    LockedGraph { root_id: ids[root].clone(), packs }
}

/// Every dependency of a lock leads to a pack of the lock that is at the declared source and
/// has the declared package.
pub proof fn lemma_locked_dependencies_lead_to_packs(
    nodes: Seq<NodeModel>,
    ids: Seq<Seq<char>>,
    profile: Option<Seq<char>>,
    index: int,
    dependency: int,
)
    requires
        lock_graph::is_closed_graph(nodes),
        has_distinct_sources(nodes),
        0 <= index < nodes.len(),
        0 <= dependency < nodes[index].dependencies.len(),
    ensures
        exists|target: int|
            0 <= target < nodes.len() && (#[trigger] locked_pack(
                nodes,
                ids,
                profile,
                target,
            )).node_id == locked_pack(nodes, ids, profile, index).dependencies[dependency].node_id
                && nodes[target].source == nodes[index].dependencies[dependency].source
                && nodes[target].package == nodes[index].dependencies[dependency].package
                && locked_pack(nodes, ids, profile, target).source
                == nodes[index].dependencies[dependency].source && locked_pack(
                nodes,
                ids,
                profile,
                target,
            ).package == nodes[index].dependencies[dependency].package,
{
    let wanted = nodes[index].dependencies[dependency];
    let target = lock_graph::node_index(nodes, wanted.source);
    lock_graph::lemma_node_index(nodes, wanted.source);
    assert(lock_graph::is_resolved(nodes, wanted));
    let found = choose|j: int|
        0 <= j < nodes.len() && (#[trigger] nodes[j]).source == wanted.source && nodes[j].package
            == wanted.package;
    assert(nodes[target].source == nodes[found].source);
    assert(locked_pack(nodes, ids, profile, target).node_id == ids[target]);
}

/// The root pack is the first pack of a lock.
pub proof fn lemma_root_pack_is_first(packs: Seq<LockedModel>, root: int)
    requires
        is_in_source_order(packs),
        0 <= root < packs.len(),
        packs[root].source is Root,
    ensures
        root == 0,
{
    if root > 0 {
        assert(graph_sources::source_less(packs[0].source, packs[root].source));
    }
}

/// A source that was captured, and the digest of its pack.
pub type SnapshotModel = (LockSource<Seq<char>>, Seq<char>);

/// What is left of capturing sources once more.
pub struct SnapshotsModel {
    /// The captured sources.
    pub sources: Seq<SnapshotModel>,
    /// How many of them were captured again.
    pub at: int,
    /// Bytes in all packs processed.
    pub processed: int,
}

/// The packs that were captured from directories, in order.
pub open spec fn captured_packs(packs: Seq<LockedModel>) -> Seq<SnapshotModel>
    decreases packs.len(),
{
    if packs.len() == 0 {
        Seq::empty()
    } else {
        let before = captured_packs(packs.drop_last());
        if packs.last().source is Git {
            before
        } else {
            before.push((packs.last().source, packs.last().digest))
        }
    }
}

/// Every pack of a lock that came from a directory is captured once more, by its source and its
/// digest, and no other is.
pub proof fn lemma_every_directory_is_captured_again(packs: Seq<LockedModel>)
    ensures
        forall|i: int|
            0 <= i < packs.len() && (#[trigger] packs[i]).source !is Git ==> captured_packs(
                packs,
            ).contains((packs[i].source, packs[i].digest)),
        forall|k: int|
            0 <= k < captured_packs(packs).len() ==> exists|i: int|
                0 <= i < packs.len() && (#[trigger] packs[i]).source !is Git && (
                    packs[i].source,
                    packs[i].digest,
                ) == #[trigger] captured_packs(packs)[k],
    decreases packs.len(),
{
    if packs.len() > 0 {
        let before = packs.drop_last();
        let fewer = captured_packs(before);
        let all = captured_packs(packs);
        lemma_every_directory_is_captured_again(before);
        assert(all == fewer || all == fewer.push((packs.last().source, packs.last().digest)));
        assert forall|i: int|
            0 <= i < packs.len() && (#[trigger] packs[i]).source !is Git implies all.contains(
            (packs[i].source, packs[i].digest),
        ) by {
            if i < before.len() {
                assert(before[i] == packs[i]);
                assert(fewer.contains((packs[i].source, packs[i].digest)));
                let k = choose|k: int|
                    0 <= k < fewer.len() && fewer[k] == (packs[i].source, packs[i].digest);
                assert(all[k] == fewer[k]);
            } else {
                assert(all[fewer.len() as int] == (packs[i].source, packs[i].digest));
            }
        }
        assert forall|k: int| 0 <= k < all.len() implies exists|i: int|
            0 <= i < packs.len() && (#[trigger] packs[i]).source !is Git && (
                packs[i].source,
                packs[i].digest,
            ) == #[trigger] all[k] by {
            if k < fewer.len() {
                assert(all[k] == fewer[k]);
                let i = choose|i: int|
                    0 <= i < before.len() && (#[trigger] before[i]).source !is Git && (
                        before[i].source,
                        before[i].digest,
                    ) == fewer[k];
                assert(packs[i] == before[i]);
            } else {
                assert(packs[packs.len() - 1].source !is Git);
            }
        }
    }
}

/// What a source that was captured once more leads to: its bytes count against the bound again,
/// and its digest must be what it was.
pub open spec fn snapshot_after(
    model: SnapshotsModel,
    reply: Result<(Seq<char>, u64), EngineError<Seq<char>, Seq<u8>>>,
) -> Result<SnapshotsModel, LockOperationError<Seq<char>, Seq<u8>>> {
    if model.at >= model.sources.len() {
        Ok(model)
    } else {
        let (source, expected) = model.sources[model.at];
        match reply {
            Err(error) => Err(lock_discovery::source_failure(source, error)),
            Ok((actual, bytes)) => {
                let processed = lock_graph::saturating(
                    model.processed,
                    bytes as int,
                    u64::MAX as int,
                );
                if processed > MAX_PROCESSED_PACK_BYTES {
                    Err(
                        lock_graph::exceeded(
                            "processed pack bytes"@,
                            MAX_PROCESSED_PACK_BYTES,
                            processed,
                        ),
                    )
                } else if actual != expected {
                    Err(
                        LockOperationError::SourceChanged {
                            source_identity: source,
                            expected,
                            actual,
                        },
                    )
                } else {
                    Ok(SnapshotsModel { at: model.at + 1, processed, ..model })
                }
            },
        }
    }
}

/// Captures the root and every directory of a lock once more, in the order of the lock.
#[derive(Debug)]
pub struct Snapshots {
    sources: Vec<(LockSource, String)>,
    at: usize,
    processed: u64,
}

/// How capturing a source went, as contracts speak of it: the digest and the bytes of its pack.
pub open spec fn capture_reply_view(reply: Result<(String, u64), EngineError>) -> Result<
    (Seq<char>, u64),
    EngineError<Seq<char>, Seq<u8>>,
> {
    match reply {
        Ok((digest, bytes)) => Ok((digest@, bytes)),
        Err(error) => Err(error@),
    }
}

impl Snapshots {
    /// What is left to do.
    pub closed spec fn model(&self) -> SnapshotsModel {
        SnapshotsModel {
            sources: seqs::views(self.sources@),
            at: self.at as int,
            processed: self.processed as int,
        }
    }

    /// Starts with the packs of a lock, after so many bytes were processed.
    pub fn new(packs: &Vec<LockedPack>, processed: u64) -> (snapshots: Snapshots)
        ensures
            snapshots.model() == (SnapshotsModel {
                sources: captured_packs(seqs::views(packs@)),
                at: 0,
                processed: processed as int,
            }),
    {
        let ghost all = seqs::views(packs@);
        let mut sources: Vec<(LockSource, String)> = Vec::new();
        let mut i: usize = 0;
        proof {
            assert(all.take(0) =~= Seq::<LockedModel>::empty());
            assert(seqs::views(sources@) =~= captured_packs(all.take(0)));
        }
        while i < packs.len()
            invariant
                i <= packs.len(),
                all == seqs::views(packs@),
                seqs::views(sources@) == captured_packs(all.take(i as int)),
            decreases packs.len() - i,
        {
            let ghost before = sources@;
            proof {
                assert(all.take(i + 1).last() == packs@[i as int]@);
                assert(all.take(i + 1).drop_last() =~= all.take(i as int));
            }
            match &packs[i].source {
                LockSource::Git(_) => {},
                _ => {
                    sources.push((packs[i].source.copied(), packs[i].digest.clone()));
                    proof {
                        assert(seqs::views(sources@) =~= seqs::views(before).push(
                            (packs@[i as int]@.source, packs@[i as int]@.digest),
                        ));
                    }
                },
            }
            i = i + 1;
        }
        proof {
            assert(all.take(all.len() as int) =~= all);
        }
        Snapshots { sources, at: 0, processed }
    }

    /// Returns the source to capture next, if one is left.
    pub fn current(&self) -> (source: Option<&LockSource>)
        ensures
            match source {
                Some(found) => self.model().at < self.model().sources.len() && found@
                    == self.model().sources[self.model().at].0,
                None => self.model().at >= self.model().sources.len(),
            },
    {
        if self.at >= self.sources.len() {
            return None;
        }
        proof {
            assert(seqs::views(self.sources@)[self.at as int] == self.sources@[self.at as int]@);
        }
        Some(&self.sources[self.at].0)
    }

    /// Takes what capturing the current source gave: the digest and the bytes of its pack.
    /// Where no source is left, nothing changes.
    pub fn captured(self, reply: Result<(String, u64), EngineError>) -> (outcome: Result<
        Snapshots,
        LockOperationError,
    >)
        ensures
            match snapshot_after(self.model(), capture_reply_view(reply)) {
                Ok(model) => outcome matches Ok(next) && next.model() == model,
                Err(error) => outcome matches Err(told) && told@ == error,
            },
    {
        if self.at >= self.sources.len() {
            return Ok(self);
        }
        proof {
            assert(seqs::views(self.sources@)[self.at as int] == self.sources@[self.at as int]@);
        }
        let source = self.sources[self.at].0.copied();
        let (digest, bytes) = match reply {
            Ok(found) => found,
            Err(error) => {
                return Err(source_error(source, error));
            },
        };
        let processed: u64 = self.processed.saturating_add(bytes);
        if processed > MAX_PROCESSED_PACK_BYTES {
            return Err(
                LockOperationError::ResourceLimitExceeded {
                    resource: "processed pack bytes".to_owned(),
                    limit: MAX_PROCESSED_PACK_BYTES,
                    actual: processed,
                },
            );
        }
        if !text_equal(self.sources[self.at].1.as_str(), digest.as_str()) {
            return Err(
                LockOperationError::SourceChanged {
                    source_identity: source,
                    expected: self.sources[self.at].1.clone(),
                    actual: digest,
                },
            );
        }
        let at: usize = self.at + 1;
        Ok(Snapshots { sources: self.sources, at, processed })
    }
}

/// What is left of capturing sources once more after all replies.
pub open spec fn snapshots_after(
    model: SnapshotsModel,
    replies: Seq<Result<(Seq<char>, u64), EngineError<Seq<char>, Seq<u8>>>>,
) -> Result<SnapshotsModel, LockOperationError<Seq<char>, Seq<u8>>>
    decreases replies.len(),
{
    if replies.len() == 0 {
        Ok(model)
    } else {
        match snapshots_after(model, replies.drop_last()) {
            Ok(before) => snapshot_after(before, replies.last()),
            Err(error) => Err(error),
        }
    }
}

/// Once every source was captured again without an error, each of them had the digest that the
/// lock names.
pub proof fn lemma_unchanged_sources_keep_their_digests(
    model: SnapshotsModel,
    replies: Seq<Result<(Seq<char>, u64), EngineError<Seq<char>, Seq<u8>>>>,
)
    requires
        model.at == 0,
        replies.len() <= model.sources.len(),
        snapshots_after(model, replies) is Ok,
    ensures
        snapshots_after(model, replies)->Ok_0.at == replies.len(),
        snapshots_after(model, replies)->Ok_0.sources == model.sources,
        forall|i: int|
            0 <= i < replies.len() ==> (#[trigger] replies[i] matches Ok((digest, _)) && digest
                == model.sources[i].1),
    decreases replies.len(),
{
    if replies.len() > 0 {
        let before = replies.drop_last();
        lemma_unchanged_sources_keep_their_digests(model, before);
        assert forall|i: int| 0 <= i < replies.len() implies (
        #[trigger] replies[i] matches Ok((digest, _)) && digest == model.sources[i].1) by {
            if i < before.len() {
                assert(before[i] == replies[i]);
            }
        }
    }
}

} // verus!
