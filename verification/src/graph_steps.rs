//! The order in which the packs of a locked graph are acquired.
//!
//! Every grant is checked first. Git packs are then looked for in the store and fetched where
//! they are missing; the root pack and every directory are captured; and the graph is
//! assembled. The caller performs the current action and reports how it went.

use vstd::prelude::*;

use crate::deployment::{AcquisitionWay, GraphAcquisitionInputs, PackScratch};
use crate::error::{EngineError, GraphAcquisitionError};
use crate::graph_acquisition;
use crate::graph_acquisition::{
    find_scratch, holds, is_first, missing_scratch, validate_local_grants, validate_mixed_grants,
    GraphNode,
};
use crate::graph_sources::{resolve_locator, LockSource};
use crate::lock_discovery;
use crate::lock_discovery::says_pack_is_missing;
use crate::seqs;
use crate::seqs::copy_bytes;
use crate::store_steps::Progress;
use crate::text::text_equal;

verus! {

/// What is done next; the numbers are places of nodes.
#[derive(Clone, Copy, Debug, PartialEq, Eq, Structural)]
pub enum GraphAction {
    /// Look for the pack of a Git node in the store.
    LookUp(usize),
    /// Fetch the pack of a Git node into the store.
    Fetch(usize),
    /// Capture the root pack.
    CaptureRoot(usize),
    /// Capture the directory of a local node.
    CaptureLocal(usize),
    /// Assemble the graph.
    Assemble,
}

/// How an action went; `T` is the type of text and `B` that of paths.
#[derive(Debug)]
pub enum GraphReply<T = String, B = Vec<u8>> {
    /// It is done.
    Done,
    /// It failed.
    Failed(EngineError<T, B>),
    /// The packs do not make up the graph.
    Rejected { detail: T },
}

impl View for GraphReply<String, Vec<u8>> {
    type V = GraphReply<Seq<char>, Seq<u8>>;

    open spec fn view(&self) -> GraphReply<Seq<char>, Seq<u8>> {
        match *self {
            GraphReply::Done => GraphReply::Done,
            GraphReply::Failed(error) => GraphReply::Failed(error@),
            GraphReply::Rejected { detail } => GraphReply::Rejected { detail: detail@ },
        }
    }
}

/// Where an acquisition stands.
pub struct GraphModel {
    /// The nodes of the graph.
    pub nodes: Seq<GraphNode<Seq<char>>>,
    /// The place of the root.
    pub root: int,
    /// The granted scratch directories.
    pub scratch: Seq<PackScratch<Seq<char>, Seq<u8>>>,
    /// The digests of the Git packs that the store lacks.
    pub missing: Seq<Seq<char>>,
    /// What is done next.
    pub action: GraphAction,
}

/// The progress of an acquisition; what is left at the end are the nodes.
pub type GraphProgress = Progress<
    GraphModel,
    Seq<GraphNode<Seq<char>>>,
    GraphAcquisitionError<Seq<char>, Seq<u8>>,
>;

/// The first place from which on there is a Git node that is the first one with its digest, or
/// the number of nodes.
pub open spec fn next_git(nodes: Seq<GraphNode<Seq<char>>>, from: int) -> int
    decreases nodes.len() - from,
{
    if from >= nodes.len() {
        nodes.len() as int
    } else if graph_acquisition::is_first_git(nodes, from) {
        from
    } else {
        next_git(nodes, from + 1)
    }
}

/// The first place from which on there is a node whose pack has to be fetched, or the number
/// of nodes.
pub open spec fn next_missing(
    nodes: Seq<GraphNode<Seq<char>>>,
    missing: Seq<Seq<char>>,
    from: int,
) -> int
    decreases nodes.len() - from,
{
    if from >= nodes.len() {
        nodes.len() as int
    } else if graph_acquisition::is_first_git(nodes, from) && missing.contains(
        nodes[from].digest,
    ) {
        from
    } else {
        next_missing(nodes, missing, from + 1)
    }
}

/// The first place from which on there is a local node, or the number of nodes.
pub open spec fn next_local(nodes: Seq<GraphNode<Seq<char>>>, from: int) -> int
    decreases nodes.len() - from,
{
    if from >= nodes.len() {
        nodes.len() as int
    } else if nodes[from].source is Local {
        from
    } else {
        next_local(nodes, from + 1)
    }
}

/// The acquisition with another action to come.
pub open spec fn acting(model: GraphModel, action: GraphAction) -> GraphProgress {
    Progress::Next(GraphModel { action, ..model })
}

/// Where the acquisition goes on that has captured the local nodes before a place.
pub open spec fn capturing_from(model: GraphModel, from: int) -> GraphProgress {
    let place = next_local(model.nodes, from);
    if place < model.nodes.len() {
        acting(model, GraphAction::CaptureLocal(place as usize))
    } else {
        acting(model, GraphAction::Assemble)
    }
}

/// Where the acquisition goes on that has fetched what was missing before a place.
pub open spec fn fetching_from(model: GraphModel, from: int) -> GraphProgress {
    let place = next_missing(model.nodes, model.missing, from);
    if place < model.nodes.len() {
        acting(model, GraphAction::Fetch(place as usize))
    } else {
        acting(model, GraphAction::CaptureRoot(model.root as usize))
    }
}

/// Where the acquisition goes on that has looked for the packs before a place. Once all were
/// looked for, every missing one needs a scratch directory.
pub open spec fn looking_from(model: GraphModel, from: int) -> GraphProgress {
    let place = next_git(model.nodes, from);
    if place < model.nodes.len() {
        acting(model, GraphAction::LookUp(place as usize))
    } else {
        match graph_acquisition::least_uncovered(model.missing, model.scratch) {
            Some(digest) => Progress::Failed(GraphAcquisitionError::MissingGitScratch { digest }),
            None => fetching_from(model, 0),
        }
    }
}

/// A failure at a node.
pub open spec fn node_failure(
    model: GraphModel,
    place: int,
    error: EngineError<Seq<char>, Seq<u8>>,
) -> GraphProgress {
    Progress::Failed(
        GraphAcquisitionError::Source { node_id: model.nodes[place].node_id, source: error },
    )
}

/// What follows an action.
pub open spec fn graph_after(model: GraphModel, reply: GraphReply<Seq<char>, Seq<u8>>) -> GraphProgress {
    match reply {
        GraphReply::Rejected { detail } => Progress::Failed(
            GraphAcquisitionError::Assembly { detail },
        ),
        GraphReply::Done => match model.action {
            GraphAction::LookUp(place) => looking_from(model, place + 1),
            GraphAction::Fetch(place) => fetching_from(model, place + 1),
            GraphAction::CaptureRoot(_) => capturing_from(model, 0),
            GraphAction::CaptureLocal(place) => capturing_from(model, place + 1),
            GraphAction::Assemble => Progress::Done(model.nodes),
        },
        GraphReply::Failed(error) => match model.action {
            GraphAction::LookUp(place) => if lock_discovery::is_missing_pack(error) {
                looking_from(
                    GraphModel {
                        missing: model.missing.push(model.nodes[place as int].digest),
                        ..model
                    },
                    place + 1,
                )
            } else {
                node_failure(model, place as int, error)
            },
            GraphAction::Fetch(place) => node_failure(model, place as int, error),
            GraphAction::CaptureRoot(place) => node_failure(model, place as int, error),
            GraphAction::CaptureLocal(place) => node_failure(model, place as int, error),
            GraphAction::Assemble => Progress::Failed(
                GraphAcquisitionError::Assembly {
                    detail: crate::error::engine_error_message(error),
                },
            ),
        },
    }
}

/// The place of the node with an identifier, or the number of nodes.
pub open spec fn node_with_id(nodes: Seq<GraphNode<Seq<char>>>, id: Seq<char>) -> int
    decreases nodes.len(),
{
    if nodes.len() == 0 {
        0
    } else {
        let before = node_with_id(nodes.drop_last(), id);
        if before < nodes.len() - 1 || nodes.last().node_id == id {
            before
        } else {
            nodes.len() as int
        }
    }
}

/// What keeps a graph from being acquired in some way, going by the grants.
pub open spec fn grant_problem(
    nodes: Seq<GraphNode<Seq<char>>>,
    inputs: GraphAcquisitionInputs,
    way: AcquisitionWay,
) -> Option<GraphAcquisitionError<Seq<char>, Seq<u8>>> {
    let locators = seqs::views(inputs.granted_locators());
    let urls = seqs::views(inputs.granted_urls());
    match way {
        AcquisitionWay::Cached => None,
        AcquisitionWay::Local => graph_acquisition::first_problem(
            nodes,
            |node: GraphNode<Seq<char>>| graph_acquisition::local_problem(node, locators),
        ),
        AcquisitionWay::Mixed => graph_acquisition::first_problem(
            nodes,
            |node: GraphNode<Seq<char>>| graph_acquisition::mixed_problem(node, locators, urls),
        ),
    }
}

/// How an acquisition starts.
pub open spec fn graph_start(
    nodes: Seq<GraphNode<Seq<char>>>,
    root_id: Seq<char>,
    inputs: GraphAcquisitionInputs,
    way: AcquisitionWay,
) -> GraphProgress {
    let model = GraphModel {
        nodes,
        root: node_with_id(nodes, root_id),
        scratch: seqs::views(inputs.granted_scratch()),
        missing: Seq::empty(),
        action: GraphAction::Assemble,
    };
    match grant_problem(nodes, inputs, way) {
        Some(error) => Progress::Failed(error),
        None => match way {
            AcquisitionWay::Cached => Progress::Next(model),
            AcquisitionWay::Local => acting(model, GraphAction::CaptureRoot(model.root as usize)),
            AcquisitionWay::Mixed => looking_from(model, 0),
        },
    }
}

proof fn lemma_node_with_id(nodes: Seq<GraphNode<Seq<char>>>, id: Seq<char>)
    ensures
        0 <= node_with_id(nodes, id) <= nodes.len(),
        node_with_id(nodes, id) < nodes.len() ==> nodes[node_with_id(nodes, id)].node_id == id,
        forall|k: int| 0 <= k < node_with_id(nodes, id) ==> (#[trigger] nodes[k]).node_id != id,
    decreases nodes.len(),
{
    if nodes.len() > 0 {
        let head = nodes.drop_last();
        lemma_node_with_id(head, id);
        assert forall|k: int| 0 <= k < node_with_id(nodes, id) implies (
        #[trigger] nodes[k]).node_id != id by {
            if k < head.len() {
                assert(head[k] == nodes[k]);
            }
        }
    }
}

/// A step of acquiring the packs of a locked graph.
#[derive(Debug)]
pub struct GraphStep {
    nodes: Vec<GraphNode>,
    root: usize,
    scratch: Vec<PackScratch>,
    missing: Vec<String>,
    action: GraphAction,
}

/// The node that an action is about, if it is about one.
pub open spec fn action_place(action: GraphAction) -> Option<int> {
    match action {
        GraphAction::LookUp(place) => Some(place as int),
        GraphAction::Fetch(place) => Some(place as int),
        GraphAction::CaptureRoot(place) => Some(place as int),
        GraphAction::CaptureLocal(place) => Some(place as int),
        GraphAction::Assemble => None,
    }
}

/// The progress of an acquisition, as contracts speak of it.
pub open spec fn graph_view(progress: Progress<GraphStep, Vec<GraphNode>, GraphAcquisitionError>) -> GraphProgress {
    match progress {
        Progress::Next(step) => Progress::Next(step.model()),
        Progress::Done(nodes) => Progress::Done(seqs::views(nodes@)),
        Progress::Failed(error) => Progress::Failed(error@),
    }
}

fn find_git(nodes: &Vec<GraphNode>, from: usize) -> (place: usize)
    requires
        from <= nodes@.len(),
    ensures
        place == next_git(seqs::views(nodes@), from as int),
        place <= nodes@.len(),
{
    let ghost all = seqs::views(nodes@);
    let mut i: usize = from;
    while i < nodes.len()
        invariant
            i <= nodes.len(),
            all == seqs::views(nodes@),
            next_git(all, i as int) == next_git(all, from as int),
        decreases nodes.len() - i,
    {
        if is_first(nodes, i) {
            return i;
        }
        i = i + 1;
    }
    i
}

fn find_missing(nodes: &Vec<GraphNode>, missing: &Vec<String>, from: usize) -> (place: usize)
    requires
        from <= nodes@.len(),
    ensures
        place == next_missing(seqs::views(nodes@), seqs::views(missing@), from as int),
        place <= nodes@.len(),
{
    let ghost all = seqs::views(nodes@);
    let ghost wanted = seqs::views(missing@);
    let mut i: usize = from;
    while i < nodes.len()
        invariant
            i <= nodes.len(),
            all == seqs::views(nodes@),
            wanted == seqs::views(missing@),
            next_missing(all, wanted, i as int) == next_missing(all, wanted, from as int),
        decreases nodes.len() - i,
    {
        assert(all[i as int] == nodes@[i as int]@);
        if is_first(nodes, i) && holds(missing, nodes[i].digest.as_str()) {
            return i;
        }
        i = i + 1;
    }
    i
}

fn find_local(nodes: &Vec<GraphNode>, from: usize) -> (place: usize)
    requires
        from <= nodes@.len(),
    ensures
        place == next_local(seqs::views(nodes@), from as int),
        place <= nodes@.len(),
{
    let ghost all = seqs::views(nodes@);
    let mut i: usize = from;
    while i < nodes.len()
        invariant
            i <= nodes.len(),
            all == seqs::views(nodes@),
            next_local(all, i as int) == next_local(all, from as int),
        decreases nodes.len() - i,
    {
        assert(all[i as int] == nodes@[i as int]@);
        match &nodes[i].source {
            LockSource::Local(_) => {
                return i;
            },
            _ => {},
        }
        i = i + 1;
    }
    i
}

impl GraphStep {
    /// Where the acquisition stands.
    pub closed spec fn model(&self) -> GraphModel {
        GraphModel {
            nodes: seqs::views(self.nodes@),
            root: self.root as int,
            scratch: seqs::views(self.scratch@),
            missing: seqs::views(self.missing@),
            action: self.action,
        }
    }

    #[verifier::type_invariant]
    spec fn inv(&self) -> bool {
        self.root < self.nodes@.len() && (action_place(self.action) matches Some(place) ==> 0
            <= place < self.nodes@.len())
    }

    fn acting(self, action: GraphAction) -> (step: GraphStep)
        requires
            action_place(action) matches Some(place) ==> 0 <= place < self.model().nodes.len(),
        ensures
            step.model() == (GraphModel { action, ..self.model() }),
    {
        proof {
            use_type_invariant(&self);
        }
        GraphStep {
            nodes: self.nodes,
            root: self.root,
            scratch: self.scratch,
            missing: self.missing,
            action,
        }
    }

    fn capturing(self, from: usize) -> (progress: Progress<
        GraphStep,
        Vec<GraphNode>,
        GraphAcquisitionError,
    >)
        requires
            from <= self.model().nodes.len(),
        ensures
            graph_view(progress) == capturing_from(self.model(), from as int),
    {
        let place: usize = find_local(&self.nodes, from);
        if place < self.nodes.len() {
            Progress::Next(self.acting(GraphAction::CaptureLocal(place)))
        } else {
            Progress::Next(self.acting(GraphAction::Assemble))
        }
    }

    fn fetching(self, from: usize) -> (progress: Progress<
        GraphStep,
        Vec<GraphNode>,
        GraphAcquisitionError,
    >)
        requires
            from <= self.model().nodes.len(),
        ensures
            graph_view(progress) == fetching_from(self.model(), from as int),
    {
        proof {
            use_type_invariant(&self);
        }
        let place: usize = find_missing(&self.nodes, &self.missing, from);
        if place < self.nodes.len() {
            Progress::Next(self.acting(GraphAction::Fetch(place)))
        } else {
            let root: usize = self.root;
            Progress::Next(self.acting(GraphAction::CaptureRoot(root)))
        }
    }

    fn looking(self, from: usize) -> (progress: Progress<
        GraphStep,
        Vec<GraphNode>,
        GraphAcquisitionError,
    >)
        requires
            from <= self.model().nodes.len(),
        ensures
            graph_view(progress) == looking_from(self.model(), from as int),
    {
        let place: usize = find_git(&self.nodes, from);
        if place < self.nodes.len() {
            return Progress::Next(self.acting(GraphAction::LookUp(place)));
        }
        match missing_scratch(&self.missing, &self.scratch) {
            Some(digest) => Progress::Failed(GraphAcquisitionError::MissingGitScratch { digest }),
            None => self.fetching(0),
        }
    }

    fn lacking(self, place: usize) -> (step: GraphStep)
        requires
            place < self.model().nodes.len(),
        ensures
            step.model() == (GraphModel {
                missing: self.model().missing.push(self.model().nodes[place as int].digest),
                ..self.model()
            }),
    {
        proof {
            use_type_invariant(&self);
        }
        let GraphStep { nodes, root, scratch, missing, action } = self;
        let ghost before = missing@;
        let mut missing = missing;
        missing.push(nodes[place].digest.clone());
        proof {
            assert(seqs::views(nodes@)[place as int] == nodes@[place as int]@);
            assert(seqs::views(missing@) =~= seqs::views(before).push(
                nodes@[place as int]@.digest,
            ));
        }
        GraphStep { nodes, root, scratch, missing, action }
    }

    fn failed_at(self, place: usize, error: EngineError) -> (progress: Progress<
        GraphStep,
        Vec<GraphNode>,
        GraphAcquisitionError,
    >)
        requires
            place < self.model().nodes.len(),
        ensures
            graph_view(progress) == node_failure(self.model(), place as int, error@),
    {
        proof {
            assert(seqs::views(self.nodes@)[place as int] == self.nodes@[place as int]@);
        }
        Progress::Failed(
            GraphAcquisitionError::Source {
                node_id: self.nodes[place].node_id.clone(),
                source: error,
            },
        )
    }

    /// Returns what is done next.
    pub fn action(&self) -> (action: GraphAction)
        ensures
            action == self.model().action,
            action_place(action) matches Some(place) ==> 0 <= place < self.model().nodes.len(),
    {
        proof {
            use_type_invariant(self);
        }
        self.action
    }

    /// Returns the nodes of the graph.
    pub fn nodes(&self) -> (nodes: &Vec<GraphNode>)
        ensures
            seqs::views(nodes@) == self.model().nodes,
    {
        &self.nodes
    }

    /// Returns the scratch directory of the pack that is fetched next.
    pub fn scratch_root(&self) -> (root: Option<&[u8]>)
        ensures
            match root {
                Some(found) => self.model().action is Fetch && graph_acquisition::scratch_of(
                    self.model().scratch,
                    self.model().nodes[action_place(self.model().action)->Some_0].digest,
                ) == Some(found@),
                None => self.model().action !is Fetch || graph_acquisition::scratch_of(
                    self.model().scratch,
                    self.model().nodes[action_place(self.model().action)->Some_0].digest,
                ) is None,
            },
    {
        proof {
            use_type_invariant(self);
        }
        match self.action {
            GraphAction::Fetch(place) => {
                proof {
                    assert(seqs::views(self.nodes@)[place as int] == self.nodes@[place as int]@);
                }
                match find_scratch(&self.scratch, self.nodes[place].digest.as_str()) {
                    Some(found) => Some(self.scratch[found].root.as_slice()),
                    None => None,
                }
            },
            _ => None,
        }
    }

    /// Returns the directory that is captured next, given that of the root pack.
    pub fn capture_path(&self, root_source: &[u8]) -> (path: Option<Vec<u8>>)
        ensures
            match self.model().action {
                GraphAction::CaptureRoot(_) => path matches Some(found) && found@ == root_source@,
                GraphAction::CaptureLocal(place) => match self.model().nodes[place as int].source {
                    LockSource::Local(locator) => path matches Some(found) && found@
                        == lock_discovery::located_path(root_source@, locator),
                    _ => path is None,
                },
                _ => path is None,
            },
    {
        proof {
            use_type_invariant(self);
        }
        match self.action {
            GraphAction::CaptureRoot(_) => Some(copy_bytes(root_source)),
            GraphAction::CaptureLocal(place) => {
                proof {
                    assert(seqs::views(self.nodes@)[place as int] == self.nodes@[place as int]@);
                }
                match &self.nodes[place].source {
                    LockSource::Local(locator) => Some(
                        resolve_locator(root_source, locator.as_str().as_bytes()),
                    ),
                    _ => None,
                }
            },
            _ => None,
        }
    }

    /// Decides what follows the current action.
    pub fn after(self, reply: GraphReply) -> (progress: Progress<
        GraphStep,
        Vec<GraphNode>,
        GraphAcquisitionError,
    >)
        ensures
            graph_view(progress) == graph_after(self.model(), reply@),
    {
        proof {
            use_type_invariant(&self);
            assert(self.nodes.len() == self.nodes@.len());
        }
        match reply {
            GraphReply::Rejected { detail } => Progress::Failed(
                GraphAcquisitionError::Assembly { detail },
            ),
            GraphReply::Done => match self.action {
                GraphAction::LookUp(place) => self.looking(place + 1),
                GraphAction::Fetch(place) => self.fetching(place + 1),
                GraphAction::CaptureRoot(_) => self.capturing(0),
                GraphAction::CaptureLocal(place) => self.capturing(place + 1),
                GraphAction::Assemble => Progress::Done(self.nodes),
            },
            GraphReply::Failed(error) => match self.action {
                GraphAction::LookUp(place) => {
                    if says_pack_is_missing(&error) {
                        self.lacking(place).looking(place + 1)
                    } else {
                        self.failed_at(place, error)
                    }
                },
                GraphAction::Fetch(place) => self.failed_at(place, error),
                GraphAction::CaptureRoot(place) => self.failed_at(place, error),
                GraphAction::CaptureLocal(place) => self.failed_at(place, error),
                GraphAction::Assemble => Progress::Failed(
                    GraphAcquisitionError::Assembly { detail: error.message() },
                ),
            },
        }
    }
}

fn find_id(nodes: &Vec<GraphNode>, id: &str) -> (place: usize)
    ensures
        place == node_with_id(seqs::views(nodes@), id@),
{
    let ghost all = seqs::views(nodes@);
    proof {
        lemma_node_with_id(all, id@);
    }
    let mut i: usize = 0;
    while i < nodes.len()
        invariant
            i <= nodes.len(),
            all == seqs::views(nodes@),
            i <= node_with_id(all, id@) <= all.len(),
            node_with_id(all, id@) < all.len() ==> all[node_with_id(all, id@)].node_id == id@,
            forall|k: int|
                0 <= k < node_with_id(all, id@) ==> (#[trigger] all[k]).node_id != id@,
        decreases nodes.len() - i,
    {
        assert(all[i as int] == nodes@[i as int]@);
        if text_equal(nodes[i].node_id.as_str(), id) {
            return i;
        }
        i = i + 1;
    }
    i
}

fn copy_scratch(list: &Vec<PackScratch>) -> (copy: Vec<PackScratch>)
    ensures
        seqs::views(copy@) == seqs::views(list@),
{
    let mut copy: Vec<PackScratch> = Vec::new();
    let mut i: usize = 0;
    while i < list.len()
        invariant
            i <= list.len(),
            copy@.len() == i,
            forall|k: int| 0 <= k < i ==> (#[trigger] copy@[k])@ == list@[k]@,
        decreases list.len() - i,
    {
        copy.push(
            PackScratch {
                digest: list[i].digest.clone(),
                root: copy_bytes(list[i].root.as_slice()),
            },
        );
        i = i + 1;
    }
    assert(seqs::views(copy@) =~= seqs::views(list@));
    copy
}

/// Starts acquiring the packs of a locked graph; nothing is read before every grant holds.
pub fn start_graph_acquisition(
    nodes: Vec<GraphNode>,
    root_id: &str,
    inputs: &GraphAcquisitionInputs,
    way: AcquisitionWay,
) -> (progress: Progress<GraphStep, Vec<GraphNode>, GraphAcquisitionError>)
    requires
        exists|i: int| 0 <= i < nodes@.len() && (#[trigger] nodes@[i]).node_id@ == root_id@,
    ensures
        graph_view(progress) == graph_start(seqs::views(nodes@), root_id@, *inputs, way),
{
    let checked = match way {
        AcquisitionWay::Cached => Ok(()),
        AcquisitionWay::Local => validate_local_grants(&nodes, inputs.local_locators()),
        AcquisitionWay::Mixed => validate_mixed_grants(
            &nodes,
            inputs.local_locators(),
            inputs.git_urls(),
        ),
    };
    match checked {
        Ok(_) => {},
        Err(error) => {
            return Progress::Failed(error);
        },
    }
    proof {
        let all = seqs::views(nodes@);
        lemma_node_with_id(all, root_id@);
        let i = choose|i: int| 0 <= i < nodes@.len() && (#[trigger] nodes@[i]).node_id@ == root_id@;
        assert(all[i] == nodes@[i]@);
    }
    let root: usize = find_id(&nodes, root_id);
    let missing: Vec<String> = Vec::new();
    proof {
        assert(seqs::views(missing@) =~= Seq::<Seq<char>>::empty());
    }
    let step = GraphStep {
        nodes,
        root,
        scratch: copy_scratch(inputs.git_scratch_roots()),
        missing,
        action: GraphAction::Assemble,
    };
    match way {
        AcquisitionWay::Cached => Progress::Next(step),
        AcquisitionWay::Local => Progress::Next(step.acting(GraphAction::CaptureRoot(root))),
        AcquisitionWay::Mixed => step.looking(0),
    }
}

/// Where an acquisition stands after some replies.
pub open spec fn graph_run(
    start: GraphProgress,
    replies: Seq<GraphReply<Seq<char>, Seq<u8>>>,
) -> GraphProgress
    decreases replies.len(),
{
    if replies.len() == 0 {
        start
    } else {
        match graph_run(start, replies.drop_last()) {
            Progress::Next(model) => graph_after(model, replies.last()),
            ended => ended,
        }
    }
}

/// The reply at some time was to an action.
pub open spec fn is_reply_to(
    start: GraphProgress,
    replies: Seq<GraphReply<Seq<char>, Seq<u8>>>,
    time: int,
    action: GraphAction,
) -> bool {
    0 <= time < replies.len() && (graph_run(start, replies.take(time)) matches Progress::Next(
        model,
    ) && model.action == action)
}

/// An action was performed.
pub open spec fn was_done(
    start: GraphProgress,
    replies: Seq<GraphReply<Seq<char>, Seq<u8>>>,
    action: GraphAction,
) -> bool {
    exists|time: int| #[trigger]
        is_reply_to(start, replies, time, action) && replies[time] is Done
}

/// The store was found to lack the pack of a node.
pub open spec fn was_missing(
    start: GraphProgress,
    replies: Seq<GraphReply<Seq<char>, Seq<u8>>>,
    place: usize,
) -> bool {
    exists|time: int| #[trigger]
        is_reply_to(start, replies, time, GraphAction::LookUp(place)) && (
        replies[time] matches GraphReply::Failed(error) && lock_discovery::is_missing_pack(error))
}

proof fn lemma_earlier_replies(
    start: GraphProgress,
    replies: Seq<GraphReply<Seq<char>, Seq<u8>>>,
    time: int,
    action: GraphAction,
)
    requires
        replies.len() > 0,
        is_reply_to(start, replies.drop_last(), time, action),
    ensures
        is_reply_to(start, replies, time, action),
        replies[time] == replies.drop_last()[time],
{
    assert(replies.drop_last().take(time) =~= replies.take(time));
}

proof fn lemma_earlier_actions(
    start: GraphProgress,
    replies: Seq<GraphReply<Seq<char>, Seq<u8>>>,
    action: GraphAction,
)
    requires
        replies.len() > 0,
        was_done(start, replies.drop_last(), action),
    ensures
        was_done(start, replies, action),
{
    let before = replies.drop_last();
    let time = choose|time: int| #[trigger]
        is_reply_to(start, before, time, action) && before[time] is Done;
    lemma_earlier_replies(start, replies, time, action);
}

proof fn lemma_earlier_misses(
    start: GraphProgress,
    replies: Seq<GraphReply<Seq<char>, Seq<u8>>>,
    place: usize,
)
    requires
        replies.len() > 0,
        was_missing(start, replies.drop_last(), place),
    ensures
        was_missing(start, replies, place),
{
    let before = replies.drop_last();
    let time = choose|time: int| #[trigger]
        is_reply_to(start, before, time, GraphAction::LookUp(place)) && (
        before[time] matches GraphReply::Failed(error) && lock_discovery::is_missing_pack(error));
    lemma_earlier_replies(start, replies, time, GraphAction::LookUp(place));
}

proof fn lemma_last_reply(
    start: GraphProgress,
    replies: Seq<GraphReply<Seq<char>, Seq<u8>>>,
    model: GraphModel,
)
    requires
        replies.len() > 0,
        graph_run(start, replies.drop_last()) == GraphProgress::Next(model),
    ensures
        is_reply_to(start, replies, replies.len() - 1, model.action),
        replies[replies.len() - 1] == replies.last(),
{
    assert(replies.take(replies.len() - 1) =~= replies.drop_last());
}

proof fn lemma_next_git(nodes: Seq<GraphNode<Seq<char>>>, from: int)
    requires
        0 <= from,
    ensures
        next_git(nodes, from) < nodes.len() ==> from <= next_git(nodes, from)
            && graph_acquisition::is_first_git(nodes, next_git(nodes, from)),
    decreases nodes.len() - from,
{
    if from < nodes.len() && !graph_acquisition::is_first_git(nodes, from) {
        lemma_next_git(nodes, from + 1);
    }
}

proof fn lemma_next_missing(
    nodes: Seq<GraphNode<Seq<char>>>,
    missing: Seq<Seq<char>>,
    from: int,
)
    requires
        0 <= from,
    ensures
        next_missing(nodes, missing, from) < nodes.len() ==> from <= next_missing(
            nodes,
            missing,
            from,
        ) && graph_acquisition::is_first_git(nodes, next_missing(nodes, missing, from))
            && missing.contains(nodes[next_missing(nodes, missing, from)].digest),
    decreases nodes.len() - from,
{
    if from < nodes.len() && !(graph_acquisition::is_first_git(nodes, from) && missing.contains(
        nodes[from].digest,
    )) {
        lemma_next_missing(nodes, missing, from + 1);
    }
}

proof fn lemma_next_local(nodes: Seq<GraphNode<Seq<char>>>, from: int)
    requires
        0 <= from,
    ensures
        next_local(nodes, from) < nodes.len() ==> from <= next_local(nodes, from) && nodes[next_local(
            nodes,
            from,
        )].source is Local,
        forall|k: int|
            from <= k < next_local(nodes, from) && k < nodes.len() ==> (
            #[trigger] nodes[k]).source !is Local,
    decreases nodes.len() - from,
{
    if from < nodes.len() && nodes[from].source !is Local {
        lemma_next_local(nodes, from + 1);
    }
}

/// What holds of an acquisition that is on its way.
spec fn is_on_its_way(
    start: GraphProgress,
    replies: Seq<GraphReply<Seq<char>, Seq<u8>>>,
    first: GraphModel,
    model: GraphModel,
) -> bool {
    &&& model.nodes == first.nodes && model.root == first.root && model.scratch == first.scratch
    &&& forall|d: int|
        0 <= d < model.missing.len() ==> exists|q: int|
            0 <= q < model.nodes.len() && graph_acquisition::is_first_git(model.nodes, q)
                && model.nodes[q].digest == #[trigger] model.missing[d] && #[trigger] was_missing(
                start,
                replies,
                q as usize,
            )
    &&& model.action !is LookUp ==> graph_acquisition::least_uncovered(
        model.missing,
        model.scratch,
    ) is None
    &&& match model.action {
        GraphAction::LookUp(place) => place < model.nodes.len() && graph_acquisition::is_first_git(
            model.nodes,
            place as int,
        ),
        GraphAction::Fetch(place) => place < model.nodes.len() && graph_acquisition::is_first_git(
            model.nodes,
            place as int,
        ) && model.missing.contains(model.nodes[place as int].digest),
        GraphAction::CaptureRoot(place) => place == model.root,
        GraphAction::CaptureLocal(place) => place < model.nodes.len()
            && model.nodes[place as int].source is Local && was_done(
            start,
            replies,
            GraphAction::CaptureRoot(model.root as usize),
        ) && forall|k: int|
            0 <= k < place && (#[trigger] model.nodes[k]).source is Local ==> was_done(
                start,
                replies,
                GraphAction::CaptureLocal(k as usize),
            ),
        GraphAction::Assemble => was_done(
            start,
            replies,
            GraphAction::CaptureRoot(model.root as usize),
        ) && forall|k: int|
            0 <= k < model.nodes.len() && (#[trigger] model.nodes[k]).source is Local ==> was_done(
                start,
                replies,
                GraphAction::CaptureLocal(k as usize),
            ),
    }
}

/// What an acquisition of a granted graph starts from.
spec fn first_model(
    nodes: Seq<GraphNode<Seq<char>>>,
    root_id: Seq<char>,
    inputs: GraphAcquisitionInputs,
) -> GraphModel {
    GraphModel {
        nodes,
        root: node_with_id(nodes, root_id),
        scratch: seqs::views(inputs.granted_scratch()),
        missing: Seq::empty(),
        action: GraphAction::Assemble,
    }
}

proof fn lemma_acquisition_keeps_its_order(
    nodes: Seq<GraphNode<Seq<char>>>,
    root_id: Seq<char>,
    inputs: GraphAcquisitionInputs,
    way: AcquisitionWay,
    replies: Seq<GraphReply<Seq<char>, Seq<u8>>>,
)
    requires
        way != AcquisitionWay::Cached,
        nodes.len() <= usize::MAX,
        node_with_id(nodes, root_id) < nodes.len(),
    ensures
        graph_run(graph_start(nodes, root_id, inputs, way), replies) matches Progress::Next(model)
            ==> is_on_its_way(
            graph_start(nodes, root_id, inputs, way),
            replies,
            first_model(nodes, root_id, inputs),
            model,
        ),
    decreases replies.len(),
{
    let start = graph_start(nodes, root_id, inputs, way);
    let first = first_model(nodes, root_id, inputs);
    lemma_node_with_id(nodes, root_id);
    if replies.len() == 0 {
        lemma_next_git(nodes, 0);
        lemma_next_missing(nodes, Seq::empty(), 0);
    } else {
        let before = replies.drop_last();
        lemma_acquisition_keeps_its_order(nodes, root_id, inputs, way, before);
        if let Progress::Next(old) = graph_run(start, before) {
            lemma_last_reply(start, replies, old);
            if let Progress::Next(model) = graph_run(start, replies) {
                lemma_step_keeps_its_order(start, replies, first, old, model);
            }
        }
    }
}

proof fn lemma_step_keeps_its_order(
    start: GraphProgress,
    replies: Seq<GraphReply<Seq<char>, Seq<u8>>>,
    first: GraphModel,
    old: GraphModel,
    model: GraphModel,
)
    requires
        replies.len() > 0,
        old.nodes.len() <= usize::MAX,
        0 <= old.root < old.nodes.len(),
        graph_run(start, replies.drop_last()) == GraphProgress::Next(old),
        is_on_its_way(start, replies.drop_last(), first, old),
        graph_after(old, replies.last()) == GraphProgress::Next(model),
    ensures
        is_on_its_way(start, replies, first, model),
{
    let before = replies.drop_last();
    let nodes = old.nodes;
    lemma_last_reply(start, replies, old);
    // Everything that was missing is still known to be.
    assert forall|d: int| 0 <= d < model.missing.len() implies exists|q: int|
        0 <= q < nodes.len() && graph_acquisition::is_first_git(nodes, q) && nodes[q].digest
            == #[trigger] model.missing[d] && #[trigger] was_missing(start, replies, q as usize) by {
        if d < old.missing.len() {
            assert(model.missing[d] == old.missing[d]);
            let q = choose|q: int|
                0 <= q < nodes.len() && graph_acquisition::is_first_git(nodes, q) && nodes[q].digest
                    == old.missing[d] && #[trigger] was_missing(start, before, q as usize);
            lemma_earlier_misses(start, replies, q as usize);
        } else {
            let place = old.action->LookUp_0;
            assert(was_missing(start, replies, place));
            assert(nodes[place as int].digest == model.missing[d]);
            assert((place as int) as usize == place);
        }
    }
    match old.action {
        GraphAction::LookUp(place) => {
            lemma_next_git(nodes, place + 1);
            lemma_next_missing(nodes, model.missing, 0);
        },
        GraphAction::Fetch(place) => {
            lemma_next_missing(nodes, model.missing, place + 1);
        },
        GraphAction::CaptureRoot(place) => {
            lemma_next_local(nodes, 0);
            assert(was_done(start, replies, GraphAction::CaptureRoot(old.root as usize)));
        },
        GraphAction::CaptureLocal(place) => {
            lemma_next_local(nodes, place + 1);
            lemma_earlier_actions(
                start,
                replies,
                GraphAction::CaptureRoot(old.root as usize),
            );
            assert(was_done(start, replies, GraphAction::CaptureLocal(place)));
            assert forall|k: int|
                0 <= k <= place && (#[trigger] nodes[k]).source is Local implies was_done(
                start,
                replies,
                GraphAction::CaptureLocal(k as usize),
            ) by {
                if k < place {
                    assert(was_done(start, before, GraphAction::CaptureLocal(k as usize)));
                    lemma_earlier_actions(start, replies, GraphAction::CaptureLocal(k as usize));
                }
            }
        },
        GraphAction::Assemble => {},
    }
}

/// Nothing is looked for, fetched or captured before every node of the graph was granted.
pub proof fn lemma_grants_come_first(
    nodes: Seq<GraphNode<Seq<char>>>,
    root_id: Seq<char>,
    inputs: GraphAcquisitionInputs,
    way: AcquisitionWay,
)
    requires
        way != AcquisitionWay::Cached,
        graph_start(nodes, root_id, inputs, way) is Next,
    ensures
        forall|i: int|
            0 <= i < nodes.len() ==> match (#[trigger] nodes[i]).source {
                LockSource::Root => true,
                LockSource::Local(locator) => seqs::views(inputs.granted_locators()).contains(
                    locator,
                ),
                LockSource::Git(git) => way == AcquisitionWay::Mixed && seqs::views(
                    inputs.granted_urls(),
                ).contains(git.url),
            },
{
    let locators = seqs::views(inputs.granted_locators());
    let urls = seqs::views(inputs.granted_urls());
    if way == AcquisitionWay::Local {
        let problem = |node: GraphNode<Seq<char>>|
            graph_acquisition::local_problem(node, locators);
        graph_acquisition::lemma_granted_graph_has_no_problem(nodes, problem);
        assert forall|i: int| 0 <= i < nodes.len() implies match (#[trigger] nodes[i]).source {
            LockSource::Root => true,
            LockSource::Local(locator) => locators.contains(locator),
            LockSource::Git(_) => false,
        } by {
            assert(problem(nodes[i]) is None);
        }
    } else {
        let problem = |node: GraphNode<Seq<char>>|
            graph_acquisition::mixed_problem(node, locators, urls);
        graph_acquisition::lemma_granted_graph_has_no_problem(nodes, problem);
        assert forall|i: int| 0 <= i < nodes.len() implies match (#[trigger] nodes[i]).source {
            LockSource::Root => true,
            LockSource::Local(locator) => locators.contains(locator),
            LockSource::Git(git) => urls.contains(git.url),
        } by {
            assert(problem(nodes[i]) is None);
        }
    }
}

/// A pack is fetched only at the first Git node with its digest, after the store was found to
/// lack it, and into a granted scratch directory: a graph whose Git packs are all in the store
/// runs no Git.
pub proof fn lemma_only_missing_packs_are_fetched(
    nodes: Seq<GraphNode<Seq<char>>>,
    root_id: Seq<char>,
    inputs: GraphAcquisitionInputs,
    way: AcquisitionWay,
    replies: Seq<GraphReply<Seq<char>, Seq<u8>>>,
    place: usize,
)
    requires
        way != AcquisitionWay::Cached,
        nodes.len() <= usize::MAX,
        node_with_id(nodes, root_id) < nodes.len(),
        graph_run(graph_start(nodes, root_id, inputs, way), replies) matches Progress::Next(model)
            && model.action == GraphAction::Fetch(place),
    ensures
        place < nodes.len(),
        graph_acquisition::is_first_git(nodes, place as int),
        was_missing(graph_start(nodes, root_id, inputs, way), replies, place),
        graph_acquisition::scratch_of(
            seqs::views(inputs.granted_scratch()),
            nodes[place as int].digest,
        ) is Some,
{
    let start = graph_start(nodes, root_id, inputs, way);
    lemma_acquisition_keeps_its_order(nodes, root_id, inputs, way, replies);
    let model = graph_run(start, replies)->Next_0;
    let digest = nodes[place as int].digest;
    let d = choose|d: int| 0 <= d < model.missing.len() && model.missing[d] == digest;
    let q = choose|q: int|
        0 <= q < nodes.len() && graph_acquisition::is_first_git(nodes, q) && nodes[q].digest
            == model.missing[d] && #[trigger] was_missing(start, replies, q as usize);
    assert(q == place) by {
        if q < place {
            assert(nodes[q].digest != nodes[place as int].digest);
        } else if q > place {
            assert(nodes[place as int].digest != nodes[q].digest);
        }
    }
    graph_acquisition::lemma_least_uncovered_digest_is_named(model.missing, model.scratch);
    assert(graph_acquisition::scratch_of(model.scratch, model.missing[d]) is Some);
}

/// The graph is assembled only after the root pack and every directory were captured, also
/// where the store had their packs already.
pub proof fn lemma_sources_are_captured_before_assembly(
    nodes: Seq<GraphNode<Seq<char>>>,
    root_id: Seq<char>,
    inputs: GraphAcquisitionInputs,
    way: AcquisitionWay,
    replies: Seq<GraphReply<Seq<char>, Seq<u8>>>,
)
    requires
        way != AcquisitionWay::Cached,
        nodes.len() <= usize::MAX,
        node_with_id(nodes, root_id) < nodes.len(),
        graph_run(graph_start(nodes, root_id, inputs, way), replies) matches Progress::Next(model)
            && model.action == GraphAction::Assemble,
    ensures
        was_done(
            graph_start(nodes, root_id, inputs, way),
            replies,
            GraphAction::CaptureRoot(node_with_id(nodes, root_id) as usize),
        ),
        forall|i: int|
            0 <= i < nodes.len() && (#[trigger] nodes[i]).source is Local ==> was_done(
                graph_start(nodes, root_id, inputs, way),
                replies,
                GraphAction::CaptureLocal(i as usize),
            ),
{
    lemma_acquisition_keeps_its_order(nodes, root_id, inputs, way, replies);
}

proof fn lemma_no_git_is_passed_over(nodes: Seq<GraphNode<Seq<char>>>, from: int, k: int)
    requires
        0 <= from <= k < nodes.len(),
        graph_acquisition::is_first_git(nodes, k),
    ensures
        next_git(nodes, from) <= k,
    decreases nodes.len() - from,
{
    if from < k {
        lemma_no_git_is_passed_over(nodes, from + 1, k);
    }
}

proof fn lemma_no_missing_is_passed_over(
    nodes: Seq<GraphNode<Seq<char>>>,
    missing: Seq<Seq<char>>,
    from: int,
    k: int,
)
    requires
        0 <= from <= k < nodes.len(),
        graph_acquisition::is_first_git(nodes, k),
        missing.contains(nodes[k].digest),
    ensures
        next_missing(nodes, missing, from) <= k,
    decreases nodes.len() - from,
{
    if from < k {
        lemma_no_missing_is_passed_over(nodes, missing, from + 1, k);
    }
}

/// The pack of a node was looked up and found, or was missing and was fetched.
pub open spec fn was_obtained(
    start: GraphProgress,
    replies: Seq<GraphReply<Seq<char>, Seq<u8>>>,
    place: usize,
) -> bool {
    was_done(start, replies, GraphAction::LookUp(place)) || (was_missing(start, replies, place)
        && was_done(start, replies, GraphAction::Fetch(place)))
}

spec fn was_looked_up(
    start: GraphProgress,
    replies: Seq<GraphReply<Seq<char>, Seq<u8>>>,
    model: GraphModel,
    place: usize,
) -> bool {
    was_done(start, replies, GraphAction::LookUp(place)) || (was_missing(start, replies, place)
        && model.missing.contains(model.nodes[place as int].digest))
}

/// A node was not passed over so far.
spec fn is_thorough(
    start: GraphProgress,
    replies: Seq<GraphReply<Seq<char>, Seq<u8>>>,
    model: GraphModel,
    place: usize,
) -> bool {
    let is_missing = model.missing.contains(model.nodes[place as int].digest);
    let was_fetched = was_done(start, replies, GraphAction::Fetch(place));
    match model.action {
        GraphAction::LookUp(at) => place < at ==> was_looked_up(start, replies, model, place),
        GraphAction::Fetch(at) => was_looked_up(start, replies, model, place) && (place < at
            && is_missing ==> was_fetched),
        _ => was_looked_up(start, replies, model, place) && (is_missing ==> was_fetched),
    }
}

proof fn lemma_step_stays_thorough(
    start: GraphProgress,
    replies: Seq<GraphReply<Seq<char>, Seq<u8>>>,
    old: GraphModel,
    model: GraphModel,
    place: usize,
)
    requires
        replies.len() > 0,
        old.nodes.len() <= usize::MAX,
        place < old.nodes.len(),
        graph_acquisition::is_first_git(old.nodes, place as int),
        action_place(old.action) matches Some(at) ==> 0 <= at < old.nodes.len(),
        graph_run(start, replies.drop_last()) == GraphProgress::Next(old),
        is_thorough(start, replies.drop_last(), old, place),
        graph_after(old, replies.last()) == GraphProgress::Next(model),
    ensures
        is_thorough(start, replies, model, place),
{
    let before = replies.drop_last();
    let nodes = old.nodes;
    let k = place as int;
    lemma_last_reply(start, replies, old);
    if was_done(start, before, GraphAction::LookUp(place)) {
        lemma_earlier_actions(start, replies, GraphAction::LookUp(place));
    }
    if was_done(start, before, GraphAction::Fetch(place)) {
        lemma_earlier_actions(start, replies, GraphAction::Fetch(place));
    }
    if was_missing(start, before, place) {
        lemma_earlier_misses(start, replies, place);
    }
    match old.action {
        GraphAction::LookUp(at) => {
            lemma_next_git(nodes, at + 1);
            lemma_next_missing(nodes, model.missing, 0);
            if old.missing.contains(nodes[k].digest) {
                let d = old.missing.index_of(nodes[k].digest);
                assert(model.missing[d] == nodes[k].digest);
            }
            if at == place {
                assert(was_done(start, replies, GraphAction::LookUp(place)) || was_missing(
                    start,
                    replies,
                    place,
                ));
                if replies.last() is Failed {
                    assert(model.missing[old.missing.len() as int] == nodes[k].digest);
                }
            }
            if at < place {
                lemma_no_git_is_passed_over(nodes, at + 1, k);
            }
            if model.missing.contains(nodes[k].digest) {
                lemma_no_missing_is_passed_over(nodes, model.missing, 0, k);
            }
        },
        GraphAction::Fetch(at) => {
            lemma_next_missing(nodes, old.missing, at + 1);
            if at == place {
                assert(was_done(start, replies, GraphAction::Fetch(place)));
            }
            if at < place && old.missing.contains(nodes[k].digest) {
                lemma_no_missing_is_passed_over(nodes, old.missing, at + 1, k);
            }
        },
        _ => {},
    }
}

proof fn lemma_acquisition_stays_thorough(
    nodes: Seq<GraphNode<Seq<char>>>,
    root_id: Seq<char>,
    inputs: GraphAcquisitionInputs,
    replies: Seq<GraphReply<Seq<char>, Seq<u8>>>,
    place: usize,
)
    requires
        nodes.len() <= usize::MAX,
        node_with_id(nodes, root_id) < nodes.len(),
        place < nodes.len(),
        graph_acquisition::is_first_git(nodes, place as int),
    ensures
        graph_run(graph_start(nodes, root_id, inputs, AcquisitionWay::Mixed), replies) matches Progress::Next(
            model,
        ) ==> is_thorough(
            graph_start(nodes, root_id, inputs, AcquisitionWay::Mixed),
            replies,
            model,
            place,
        ),
    decreases replies.len(),
{
    let way = AcquisitionWay::Mixed;
    let start = graph_start(nodes, root_id, inputs, way);
    if replies.len() == 0 {
        lemma_next_git(nodes, 0);
        lemma_no_git_is_passed_over(nodes, 0, place as int);
    } else {
        let before = replies.drop_last();
        lemma_acquisition_stays_thorough(nodes, root_id, inputs, before, place);
        lemma_acquisition_keeps_its_order(nodes, root_id, inputs, way, before);
        lemma_node_with_id(nodes, root_id);
        if let Progress::Next(old) = graph_run(start, before) {
            if let Progress::Next(model) = graph_run(start, replies) {
                lemma_step_stays_thorough(start, replies, old, model, place);
            }
        }
    }
}

proof fn lemma_first_git_exists(nodes: Seq<GraphNode<Seq<char>>>, i: int) -> (first: int)
    requires
        0 <= i < nodes.len(),
        nodes[i].source is Git,
    ensures
        0 <= first <= i,
        nodes[first].digest == nodes[i].digest,
        graph_acquisition::is_first_git(nodes, first),
    decreases i,
{
    if graph_acquisition::is_first_git(nodes, i) {
        i
    } else {
        let k = choose|k: int|
            0 <= k < i && (#[trigger] nodes[k]).source is Git && nodes[k].digest
                == nodes[i].digest;
        lemma_first_git_exists(nodes, k)
    }
}

/// No pack is left out: before a graph is assembled, the pack of each of its Git nodes was
/// obtained, by a node with the same digest.
pub proof fn lemma_every_pack_is_obtained_before_assembly(
    nodes: Seq<GraphNode<Seq<char>>>,
    root_id: Seq<char>,
    inputs: GraphAcquisitionInputs,
    replies: Seq<GraphReply<Seq<char>, Seq<u8>>>,
    i: int,
)
    requires
        nodes.len() <= usize::MAX,
        node_with_id(nodes, root_id) < nodes.len(),
        graph_run(graph_start(nodes, root_id, inputs, AcquisitionWay::Mixed), replies) matches Progress::Next(
            model,
        ) && model.action == GraphAction::Assemble,
        0 <= i < nodes.len(),
        nodes[i].source is Git,
    ensures
        exists|place: usize|
            place < nodes.len() && nodes[place as int].source is Git && nodes[place as int].digest
                == nodes[i].digest && #[trigger] was_obtained(
                graph_start(nodes, root_id, inputs, AcquisitionWay::Mixed),
                replies,
                place,
            ),
{
    let first = lemma_first_git_exists(nodes, i);
    let place = first as usize;
    lemma_acquisition_stays_thorough(nodes, root_id, inputs, replies, place);
    lemma_acquisition_keeps_its_order(nodes, root_id, inputs, AcquisitionWay::Mixed, replies);
    assert(was_obtained(
        graph_start(nodes, root_id, inputs, AcquisitionWay::Mixed),
        replies,
        place,
    ));
}

/// What was acquired are the nodes of the graph, all of them and in their order, and only a
/// graph that was assembled is acquired.
pub proof fn lemma_acquired_nodes_are_those_of_the_graph(
    nodes: Seq<GraphNode<Seq<char>>>,
    root_id: Seq<char>,
    inputs: GraphAcquisitionInputs,
    way: AcquisitionWay,
    replies: Seq<GraphReply<Seq<char>, Seq<u8>>>,
)
    ensures
        match graph_run(graph_start(nodes, root_id, inputs, way), replies) {
            Progress::Next(model) => model.nodes == nodes,
            Progress::Done(found) => found == nodes && was_done(
                graph_start(nodes, root_id, inputs, way),
                replies,
                GraphAction::Assemble,
            ),
            Progress::Failed(_) => true,
        },
    decreases replies.len(),
{
    let start = graph_start(nodes, root_id, inputs, way);
    if replies.len() > 0 {
        let before = replies.drop_last();
        lemma_acquired_nodes_are_those_of_the_graph(nodes, root_id, inputs, way, before);
        match graph_run(start, before) {
            Progress::Next(model) => {
                lemma_last_reply(start, replies, model);
            },
            Progress::Done(_) => {
                lemma_earlier_actions(start, replies, GraphAction::Assemble);
            },
            Progress::Failed(_) => {},
        }
    }
}

/// A failure tells the node that it came from and what went wrong there; a pack that is merely
/// missing fails nothing while it is looked up.
pub proof fn lemma_failures_name_their_node(
    model: GraphModel,
    error: EngineError<Seq<char>, Seq<u8>>,
    place: usize,
)
    requires
        place < model.nodes.len(),
        model.nodes.len() <= usize::MAX,
    ensures
        ({
            let failed = GraphReply::Failed(error);
            let told = GraphProgress::Failed(
                GraphAcquisitionError::Source {
                    node_id: model.nodes[place as int].node_id,
                    source: error,
                },
            );
            &&& model.action == GraphAction::Fetch(place) || model.action
                == GraphAction::CaptureRoot(place) || model.action == GraphAction::CaptureLocal(
                place,
            ) ==> graph_after(model, failed) == told
            &&& model.action == GraphAction::LookUp(place) ==> (graph_after(model, failed) == told
                <==> !(error matches EngineError::PackObject {
                digest: _,
                path: _,
                reason,
            } && reason is Missing))
        }),
{
}

} // verus!
