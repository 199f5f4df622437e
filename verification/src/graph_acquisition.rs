//! Acquiring every pack of a locked graph under explicit grants.

use vstd::prelude::*;

use crate::deployment::PackScratch;
use crate::error::GraphAcquisitionError;
use crate::graph_sources;
use crate::graph_sources::{text_before, LockSource};
use crate::seqs;
use crate::text::text_equal;

verus! {

/// A node of a locked graph; `T` is the type of text.
#[derive(Clone, Debug, PartialEq, Eq)]
pub struct GraphNode<T = String> {
    pub node_id: T,
    pub source: LockSource<T>,
    pub digest: T,
}

impl View for GraphNode<String> {
    type V = GraphNode<Seq<char>>;

    open spec fn view(&self) -> GraphNode<Seq<char>> {
        GraphNode { node_id: self.node_id@, source: self.source@, digest: self.digest@ }
    }
}

/// What keeps a node from being acquired from local sources and Git, if anything.
pub open spec fn mixed_problem(
    node: GraphNode<Seq<char>>,
    locators: Seq<Seq<char>>,
    urls: Seq<Seq<char>>,
) -> Option<GraphAcquisitionError<Seq<char>, Seq<u8>>> {
    match node.source {
        LockSource::Root => None,
        LockSource::Local(locator) => if locators.contains(locator) {
            None
        } else {
            Some(GraphAcquisitionError::LocalSourceNotGranted { node_id: node.node_id, locator })
        },
        LockSource::Git(source) => if urls.contains(source.url) {
            None
        } else {
            Some(
                GraphAcquisitionError::GitSourceNotGranted {
                    node_id: node.node_id,
                    url: source.url,
                },
            )
        },
    }
}

/// What keeps a node from being acquired from local sources alone, if anything.
pub open spec fn local_problem(node: GraphNode<Seq<char>>, locators: Seq<Seq<char>>) -> Option<
    GraphAcquisitionError<Seq<char>, Seq<u8>>,
> {
    match node.source {
        LockSource::Root => None,
        LockSource::Local(locator) => if locators.contains(locator) {
            None
        } else {
            Some(GraphAcquisitionError::LocalSourceNotGranted { node_id: node.node_id, locator })
        },
        LockSource::Git(source) => Some(
            GraphAcquisitionError::UnsupportedGitSource {
                node_id: node.node_id,
                git_source: source,
            },
        ),
    }
}

/// The first problem among nodes.
pub open spec fn first_problem(
    nodes: Seq<GraphNode<Seq<char>>>,
    problem: spec_fn(GraphNode<Seq<char>>) -> Option<GraphAcquisitionError<Seq<char>, Seq<u8>>>,
) -> Option<GraphAcquisitionError<Seq<char>, Seq<u8>>>
    decreases nodes.len(),
{
    if nodes.len() == 0 {
        None
    } else {
        match first_problem(nodes.drop_last(), problem) {
            Some(error) => Some(error),
            None => problem(nodes.last()),
        }
    }
}

proof fn lemma_first_problem_stays(
    nodes: Seq<GraphNode<Seq<char>>>,
    problem: spec_fn(GraphNode<Seq<char>>) -> Option<GraphAcquisitionError<Seq<char>, Seq<u8>>>,
    count: int,
)
    requires
        0 <= count <= nodes.len(),
        first_problem(nodes.take(count), problem) is Some,
    ensures
        first_problem(nodes, problem) == first_problem(nodes.take(count), problem),
    decreases nodes.len() - count,
{
    if count == nodes.len() {
        assert(nodes.take(count) =~= nodes);
    } else {
        assert(nodes.take(count + 1).drop_last() =~= nodes.take(count));
        lemma_first_problem_stays(nodes, problem, count + 1);
    }
}

/// Tells whether a list holds a text.
pub fn holds(list: &Vec<String>, value: &str) -> (found: bool)
    ensures
        found == seqs::views(list@).contains(value@),
{
    let ghost all = seqs::views(list@);
    let mut i: usize = 0;
    while i < list.len()
        invariant
            i <= list.len(),
            all == seqs::views(list@),
            forall|k: int| 0 <= k < i ==> #[trigger] all[k] != value@,
        decreases list.len() - i,
    {
        assert(all[i as int] == list@[i as int]@);
        if text_equal(list[i].as_str(), value) {
            return true;
        }
        i = i + 1;
    }
    false
}

/// What a check of grants gave, as contracts speak of it.
pub open spec fn grants_view(checked: Result<(), GraphAcquisitionError>) -> Option<
    GraphAcquisitionError<Seq<char>, Seq<u8>>,
> {
    match checked {
        Ok(_) => None,
        Err(error) => Some(error@),
    }
}

/// Checks, before anything is read, that every source of a graph was granted.
pub fn validate_mixed_grants(
    nodes: &Vec<GraphNode>,
    local_locators: &Vec<String>,
    git_urls: &Vec<String>,
) -> (checked: Result<(), GraphAcquisitionError>)
    ensures
        grants_view(checked) == first_problem(
            seqs::views(nodes@),
            |node: GraphNode<Seq<char>>|
                mixed_problem(node, seqs::views(local_locators@), seqs::views(git_urls@)),
        ),
{
    let ghost all = seqs::views(nodes@);
    let ghost problem = |node: GraphNode<Seq<char>>|
        mixed_problem(node, seqs::views(local_locators@), seqs::views(git_urls@));
    let mut i: usize = 0;
    proof {
        assert(all.take(0) =~= Seq::<GraphNode<Seq<char>>>::empty());
    }
    while i < nodes.len()
        invariant
            i <= nodes.len(),
            all == seqs::views(nodes@),
            problem == (|node: GraphNode<Seq<char>>|
                mixed_problem(node, seqs::views(local_locators@), seqs::views(git_urls@))),
            first_problem(all.take(i as int), problem) is None,
        decreases nodes.len() - i,
    {
        let node = &nodes[i];
        proof {
            assert(all.take(i + 1).drop_last() =~= all.take(i as int));
            assert(all.take(i + 1).last() == node@);
        }
        match &node.source {
            LockSource::Root => {},
            LockSource::Local(locator) => {
                if !holds(local_locators, locator.as_str()) {
                    proof {
                        lemma_first_problem_stays(all, problem, i + 1);
                    }
                    return Err(
                        GraphAcquisitionError::LocalSourceNotGranted {
                            node_id: node.node_id.clone(),
                            locator: locator.clone(),
                        },
                    );
                }
            },
            LockSource::Git(source) => {
                if !holds(git_urls, source.url.as_str()) {
                    proof {
                        lemma_first_problem_stays(all, problem, i + 1);
                    }
                    return Err(
                        GraphAcquisitionError::GitSourceNotGranted {
                            node_id: node.node_id.clone(),
                            url: source.url.clone(),
                        },
                    );
                }
            },
        }
        i = i + 1;
    }
    proof {
        assert(all.take(all.len() as int) =~= all);
    }
    Ok(())
}

/// Checks, before anything is read, that every source of a graph is local and was granted.
pub fn validate_local_grants(nodes: &Vec<GraphNode>, granted_locators: &Vec<String>) -> (checked:
    Result<(), GraphAcquisitionError>)
    ensures
        grants_view(checked) == first_problem(
            seqs::views(nodes@),
            |node: GraphNode<Seq<char>>| local_problem(node, seqs::views(granted_locators@)),
        ),
{
    let ghost all = seqs::views(nodes@);
    let ghost problem = |node: GraphNode<Seq<char>>|
        local_problem(node, seqs::views(granted_locators@));
    let mut i: usize = 0;
    proof {
        assert(all.take(0) =~= Seq::<GraphNode<Seq<char>>>::empty());
    }
    while i < nodes.len()
        invariant
            i <= nodes.len(),
            all == seqs::views(nodes@),
            problem == (|node: GraphNode<Seq<char>>|
                local_problem(node, seqs::views(granted_locators@))),
            first_problem(all.take(i as int), problem) is None,
        decreases nodes.len() - i,
    {
        let node = &nodes[i];
        proof {
            assert(all.take(i + 1).drop_last() =~= all.take(i as int));
            assert(all.take(i + 1).last() == node@);
        }
        match &node.source {
            LockSource::Root => {},
            LockSource::Local(locator) => {
                if !holds(granted_locators, locator.as_str()) {
                    proof {
                        lemma_first_problem_stays(all, problem, i + 1);
                    }
                    return Err(
                        GraphAcquisitionError::LocalSourceNotGranted {
                            node_id: node.node_id.clone(),
                            locator: locator.clone(),
                        },
                    );
                }
            },
            LockSource::Git(source) => {
                proof {
                    lemma_first_problem_stays(all, problem, i + 1);
                }
                return Err(
                    GraphAcquisitionError::UnsupportedGitSource {
                        node_id: node.node_id.clone(),
                        git_source: source.copied(),
                    },
                );
            },
        }
        i = i + 1;
    }
    proof {
        assert(all.take(all.len() as int) =~= all);
    }
    Ok(())
}

/// Nothing is found wrong with the grants exactly where every node was granted.
pub proof fn lemma_granted_graph_has_no_problem(
    nodes: Seq<GraphNode<Seq<char>>>,
    problem: spec_fn(GraphNode<Seq<char>>) -> Option<GraphAcquisitionError<Seq<char>, Seq<u8>>>,
)
    ensures
        first_problem(nodes, problem) is None <==> forall|i: int|
            0 <= i < nodes.len() ==> problem(#[trigger] nodes[i]) is None,
    decreases nodes.len(),
{
    if nodes.len() > 0 {
        let head = nodes.drop_last();
        lemma_granted_graph_has_no_problem(head, problem);
        if first_problem(nodes, problem) is None {
            assert forall|i: int| 0 <= i < nodes.len() implies problem(#[trigger] nodes[i])
                is None by {
                if i < head.len() {
                    assert(problem(head[i]) is None);
                }
            }
        } else if first_problem(head, problem) is None {
            assert(problem(nodes[nodes.len() - 1]) is Some);
        } else {
            let i = choose|i: int| 0 <= i < head.len() && problem(#[trigger] head[i]) is Some;
            assert(problem(nodes[i]) is Some);
        }
    }
}

/// A node is the first Git node with its digest.
pub open spec fn is_first_git(nodes: Seq<GraphNode<Seq<char>>>, index: int) -> bool {
    nodes[index].source is Git && forall|k: int|
        0 <= k < index && (#[trigger] nodes[k]).source is Git ==> nodes[k].digest
            != nodes[index].digest
}

/// Tells whether a node is the first Git node with its digest.
pub fn is_first(nodes: &Vec<GraphNode>, index: usize) -> (first: bool)
    requires
        index < nodes@.len(),
    ensures
        first == is_first_git(seqs::views(nodes@), index as int),
{
    let ghost all = seqs::views(nodes@);
    assert(all[index as int] == nodes@[index as int]@);
    match &nodes[index].source {
        LockSource::Git(_) => {},
        _ => {
            return false;
        },
    }
    let mut k: usize = 0;
    while k < index
        invariant
            k <= index < nodes@.len(),
            all == seqs::views(nodes@),
            all[index as int] == nodes@[index as int]@,
            all[index as int].source is Git,
            forall|j: int|
                0 <= j < k && (#[trigger] all[j]).source is Git ==> all[j].digest
                    != all[index as int].digest,
        decreases index - k,
    {
        assert(all[k as int] == nodes@[k as int]@);
        match &nodes[k].source {
            LockSource::Git(_) => {
                if text_equal(nodes[k].digest.as_str(), nodes[index].digest.as_str()) {
                    return false;
                }
            },
            _ => {},
        }
        k = k + 1;
    }
    true
}

/// The scratch directory for a missing pack, if there is one.
pub open spec fn scratch_of(
    list: Seq<PackScratch<Seq<char>, Seq<u8>>>,
    digest: Seq<char>,
) -> Option<Seq<u8>>
    decreases list.len(),
{
    if list.len() == 0 {
        None
    } else if list.last().digest == digest {
        Some(list.last().root)
    } else {
        scratch_of(list.drop_last(), digest)
    }
}

/// Returns the place of the scratch directory for a missing pack.
pub fn find_scratch(list: &Vec<PackScratch>, digest: &str) -> (place: Option<usize>)
    ensures
        match place {
            Some(found) => found < list@.len() && scratch_of(seqs::views(list@), digest@) == Some(
                list@[found as int].root@,
            ),
            None => scratch_of(seqs::views(list@), digest@) is None,
        },
{
    let ghost all = seqs::views(list@);
    let mut i: usize = list.len();
    proof {
        assert(all.take(i as int) =~= all);
    }
    while i > 0
        invariant
            i <= list.len(),
            all == seqs::views(list@),
            scratch_of(all, digest@) == scratch_of(all.take(i as int), digest@),
        decreases i,
    {
        i = i - 1;
        proof {
            assert(all.take(i + 1).last() == list@[i as int]@);
            assert(all.take(i + 1).drop_last() =~= all.take(i as int));
        }
        if text_equal(list[i].digest.as_str(), digest) {
            return Some(i);
        }
    }
    None
}

/// Of the missing packs without a scratch directory, the digest that comes first.
pub open spec fn least_uncovered(
    missing: Seq<Seq<char>>,
    scratch: Seq<PackScratch<Seq<char>, Seq<u8>>>,
) -> Option<Seq<char>>
    decreases missing.len(),
{
    if missing.len() == 0 {
        None
    } else {
        let before = least_uncovered(missing.drop_last(), scratch);
        if scratch_of(scratch, missing.last()) is Some {
            before
        } else {
            match before {
                None => Some(missing.last()),
                Some(least) => if graph_sources::text_less(missing.last(), least) {
                    Some(missing.last())
                } else {
                    Some(least)
                },
            }
        }
    }
}

/// Returns, of the missing packs without a scratch directory, the digest that comes first.
pub fn missing_scratch(missing: &Vec<String>, scratch: &Vec<PackScratch>) -> (digest: Option<String>)
    ensures
        match digest {
            Some(found) => least_uncovered(seqs::views(missing@), seqs::views(scratch@)) == Some(
                found@,
            ),
            None => least_uncovered(seqs::views(missing@), seqs::views(scratch@)) is None,
        },
{
    let ghost all = seqs::views(missing@);
    let ghost list = seqs::views(scratch@);
    let mut least: Option<usize> = None;
    let mut i: usize = 0;
    proof {
        assert(all.take(0) =~= Seq::<Seq<char>>::empty());
    }
    while i < missing.len()
        invariant
            i <= missing.len(),
            all == seqs::views(missing@),
            list == seqs::views(scratch@),
            match least {
                Some(found) => found < i && least_uncovered(all.take(i as int), list) == Some(
                    all[found as int],
                ),
                None => least_uncovered(all.take(i as int), list) is None,
            },
        decreases missing.len() - i,
    {
        proof {
            assert(all.take(i + 1).last() == missing@[i as int]@);
            assert(all.take(i + 1).drop_last() =~= all.take(i as int));
            assert(all[i as int] == missing@[i as int]@);
        }
        match find_scratch(scratch, missing[i].as_str()) {
            Some(_) => {},
            None => {
                let better = match least {
                    None => true,
                    Some(found) => {
                        assert(all[found as int] == missing@[found as int]@);
                        text_before(missing[i].as_str(), missing[found].as_str())
                    },
                };
                if better {
                    least = Some(i);
                }
            },
        }
        i = i + 1;
    }
    proof {
        assert(all.take(all.len() as int) =~= all);
    }
    match least {
        None => None,
        Some(found) => {
            assert(all[found as int] == missing@[found as int]@);
            Some(missing[found].clone())
        },
    }
}

/// A digest is named only where it is missing without a scratch directory and no smaller one
/// is; where none is named, every missing pack has a scratch directory.
pub proof fn lemma_least_uncovered_digest_is_named(
    missing: Seq<Seq<char>>,
    scratch: Seq<PackScratch<Seq<char>, Seq<u8>>>,
)
    ensures
        match least_uncovered(missing, scratch) {
            Some(least) => missing.contains(least) && scratch_of(scratch, least) is None && forall|
                i: int,
            |
                0 <= i < missing.len() && scratch_of(scratch, #[trigger] missing[i]) is None
                    ==> !graph_sources::text_less(missing[i], least),
            None => forall|i: int|
                0 <= i < missing.len() ==> scratch_of(scratch, #[trigger] missing[i]) is Some,
        },
    decreases missing.len(),
{
    if missing.len() > 0 {
        let head = missing.drop_last();
        let last = missing.last();
        lemma_least_uncovered_digest_is_named(head, scratch);
        let before = least_uncovered(head, scratch);
        let after = least_uncovered(missing, scratch);
        assert(missing[missing.len() - 1] == last);
        if let Some(least) = before {
            let place = choose|i: int| 0 <= i < head.len() && head[i] == least;
            assert(missing[place] == least);
        }
        if let Some(least) = after {
            assert forall|i: int|
                0 <= i < missing.len() && scratch_of(scratch, #[trigger] missing[i]) is None
                implies !graph_sources::text_less(missing[i], least) by {
                graph_sources::lemma_text_order(least, last, missing[i]);
                if i < head.len() {
                    assert(head[i] == missing[i]);
                    if let Some(old) = before {
                        graph_sources::lemma_text_order(missing[i], last, old);
                        graph_sources::lemma_text_order(last, old, missing[i]);
                    }
                }
            }
        } else {
            assert forall|i: int| 0 <= i < missing.len() implies scratch_of(
                scratch,
                #[trigger] missing[i],
            ) is Some by {
                if i < head.len() {
                    assert(head[i] == missing[i]);
                }
            }
        }
    }
}

/// The scratch directory for a pack is one that was granted for its digest, and there is none
/// exactly where none was granted; of several the last one counts.
pub proof fn lemma_scratch_is_that_of_the_pack(
    list: Seq<PackScratch<Seq<char>, Seq<u8>>>,
    digest: Seq<char>,
)
    ensures
        match scratch_of(list, digest) {
            Some(root) => exists|i: int|
                {
                    &&& 0 <= i < list.len()
                    &&& (#[trigger] list[i]).digest == digest
                    &&& list[i].root == root
                    &&& forall|j: int| i < j < list.len() ==> (#[trigger] list[j]).digest != digest
                },
            None => forall|i: int| 0 <= i < list.len() ==> (#[trigger] list[i]).digest != digest,
        },
    decreases list.len(),
{
    if list.len() > 0 {
        let fewer = list.drop_last();
        let last = list.len() - 1;
        if list.last().digest == digest {
            assert(list[last].digest == digest);
        } else {
            lemma_scratch_is_that_of_the_pack(fewer, digest);
            if let Some(root) = scratch_of(fewer, digest) {
                let i = choose|i: int|
                    {
                        &&& 0 <= i < fewer.len()
                        &&& (#[trigger] fewer[i]).digest == digest
                        &&& fewer[i].root == root
                        &&& forall|j: int|
                            i < j < fewer.len() ==> (#[trigger] fewer[j]).digest != digest
                    };
                assert(list[i].digest == digest && list[i].root == root);
                assert forall|j: int| i < j < list.len() implies (#[trigger] list[j]).digest
                    != digest by {
                    if j < last {
                        assert(fewer[j].digest != digest);
                    }
                }
            } else {
                assert forall|i: int| 0 <= i < list.len() implies (#[trigger] list[i]).digest
                    != digest by {
                    if i < last {
                        assert(fewer[i].digest != digest);
                    }
                }
            }
        }
    }
}

} // verus!
