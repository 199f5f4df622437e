//! The request that a preparation submits: for which namespace and head, and with which plan.

use vstd::prelude::*;

use crate::error::PreparedStoreIssue;
use crate::lifecycle;
use crate::lifecycle::{transition_inputs, TransitionDescription};
use crate::plan::{Finding, InputKind, PlanInput};
use crate::rich_planner::{Artifact, ArtifactModel, RichPlan, RichPlanModel};
use crate::selected_state;
use crate::selected_state::{check_retained_length, RetainedArtifact, SelectedPlan};
use crate::seqs;
use crate::transform::TransformProvenance;
use crate::transitions;

verus! {

/// A request to prepare a plan.
#[derive(Debug)]
pub struct PrepareRequest {
    /// The namespace that the plan changes.
    pub namespace: String,
    /// The generation that must still be the head when the plan is committed.
    pub expected_head: Option<String>,
    /// The identity of the graph that the plan belongs to.
    pub graph_digest: String,
    pub plan: RichPlan,
}

/// What a request holds.
#[verifier::ext_equal]
pub struct PrepareRequestModel {
    pub namespace: Seq<char>,
    pub expected_head: Option<Seq<char>>,
    pub graph_digest: Seq<char>,
    pub plan: RichPlanModel,
}

impl View for PrepareRequest {
    type V = PrepareRequestModel;

    open spec fn view(&self) -> PrepareRequestModel {
        PrepareRequestModel {
            namespace: self.namespace@,
            expected_head: transitions::optional_text(self.expected_head),
            graph_digest: self.graph_digest@,
            plan: self.plan@,
        }
    }
}

/// Builds the request for the plan of an evaluated graph.
pub fn planned_request(
    namespace: String,
    expected_head: Option<String>,
    graph_digest: String,
    plan: RichPlan,
) -> (request: PrepareRequest)
    ensures
        request@ == (PrepareRequestModel {
            namespace: namespace@,
            expected_head: transitions::optional_text(expected_head),
            graph_digest: graph_digest@,
            plan: plan@,
        }),
{
    PrepareRequest { namespace, expected_head, graph_digest, plan }
}

/// The graph that a transition belongs to; `T` is the type of text and `L` that of lists of
/// inputs.
#[derive(Debug)]
pub enum TransitionGraph<T = String, L = Vec<PlanInput>> {
    /// The graph of a retained record, with all inputs of that record.
    Retained { digest: T, inputs: L },
    /// No graph is retained: the digest of the bytes that identify the transition itself.
    Fresh { digest: T },
}

/// What is known of the graph of a transition.
pub type TransitionGraphModel = TransitionGraph<Seq<char>, Seq<PlanInput<Seq<char>>>>;

impl View for TransitionGraph {
    type V = TransitionGraphModel;

    open spec fn view(&self) -> TransitionGraphModel {
        match *self {
            TransitionGraph::Retained { digest, inputs } => TransitionGraph::Retained {
                digest: digest@,
                inputs: seqs::views(inputs@),
            },
            TransitionGraph::Fresh { digest } => TransitionGraph::Fresh { digest: digest@ },
        }
    }
}

impl TransitionGraphModel {
    /// The identity of the graph.
    pub open spec fn identity(self) -> Seq<char> {
        match self {
            TransitionGraph::Retained { digest, .. } => digest,
            TransitionGraph::Fresh { digest } => digest,
        }
    }

    /// The inputs of the retained record; none where no graph is retained.
    pub open spec fn retained_inputs(self) -> Seq<PlanInput<Seq<char>>> {
        match self {
            TransitionGraph::Retained { inputs, .. } => inputs,
            TransitionGraph::Fresh { .. } => Seq::empty(),
        }
    }
}

/// The retained bytes of an artifact have the length that the desired targets tell.
pub open spec fn has_length(artifact: RetainedArtifact<Seq<char>>, bytes: Seq<u8>) -> bool {
    bytes.len() == artifact.byte_len
}

/// The artifacts of a request, with the retained bytes.
pub open spec fn request_artifacts(
    artifacts: Seq<RetainedArtifact<Seq<char>>>,
    contents: Seq<Seq<u8>>,
) -> Seq<ArtifactModel> {
    Seq::new(
        artifacts.len(),
        |i: int|
            Artifact {
                id: artifacts[i].artifact,
                bytes: contents[i],
                media_type: "application/octet-stream"@,
            },
    )
}

/// The request that leads to a selected state: it is for the namespace and the head that the
/// transition started from, has the one finding that asks for approval, and takes over the
/// planned operations and artifacts.
pub open spec fn selected_request_of(
    namespace: Seq<char>,
    current_head: Seq<char>,
    graph: TransitionGraphModel,
    description: TransitionDescription<Seq<char>>,
    plan: SelectedPlan,
    contents: Seq<Seq<u8>>,
) -> PrepareRequestModel {
    PrepareRequestModel {
        namespace,
        expected_head: Some(current_head),
        graph_digest: graph.identity(),
        plan: RichPlanModel {
            inputs: lifecycle::transition_inputs_of(
                description,
                current_head,
                graph.retained_inputs(),
            ),
            artifacts: request_artifacts(seqs::views(plan.artifacts@), contents),
            findings: seq![
                Finding {
                    code: description.code(),
                    message: description.message(namespace),
                    approval_required: true,
                },
            ],
            transforms: Seq::empty(),
            operations: seqs::views(plan.operations@),
        },
    }
}

fn fill_artifacts(artifacts: Vec<RetainedArtifact>, contents: Vec<Vec<u8>>) -> (filled: Result<
    Vec<Artifact>,
    PreparedStoreIssue,
>)
    requires
        contents@.len() == artifacts@.len(),
    ensures
        match filled {
            Ok(filled) => {
                &&& forall|i: int|
                    0 <= i < artifacts@.len() ==> has_length(
                        #[trigger] artifacts@[i]@,
                        contents@[i]@,
                    )
                &&& seqs::views(filled@) == request_artifacts(
                    seqs::views(artifacts@),
                    seqs::views(contents@),
                )
            },
            Err(issue) => exists|k: int|
                {
                    &&& 0 <= k < artifacts@.len()
                    &&& !has_length(#[trigger] artifacts@[k]@, contents@[k]@)
                    &&& forall|i: int|
                        0 <= i < k ==> has_length(#[trigger] artifacts@[i]@, contents@[i]@)
                    &&& issue@ == selected_state::invalid_record(
                        "retained blob "@ + artifacts@[k].digest@
                            + " differs from desired target metadata"@,
                    )
                },
        },
{
    let ghost all = seqs::views(artifacts@);
    let ghost given = seqs::views(contents@);
    let mut rest = contents;
    let mut filled: Vec<Artifact> = Vec::new();
    let mut i: usize = 0;
    while i < artifacts.len()
        invariant
            i <= artifacts.len(),
            all == seqs::views(artifacts@),
            given == seqs::views(contents@),
            contents@.len() == artifacts@.len(),
            rest@.len() == artifacts@.len(),
            forall|k: int| i <= k < rest@.len() ==> #[trigger] rest@[k] == contents@[k],
            filled@.len() == i,
            forall|k: int| 0 <= k < i ==> has_length(#[trigger] artifacts@[k]@, contents@[k]@),
            forall|k: int|
                0 <= k < i ==> #[trigger] filled@[k]@ == request_artifacts(all, given)[k],
        decreases artifacts.len() - i,
    {
        let artifact = &artifacts[i];
        let actual: usize = rest[i].len();
        if let Err(issue) = check_retained_length(
            artifact.digest.as_str(),
            artifact.byte_len,
            actual as u64,
        ) {
            proof {
                assert(!has_length(artifacts@[i as int]@, contents@[i as int]@));
            }
            return Err(issue);
        }
        let mut bytes: Vec<u8> = Vec::new();
        std::mem::swap(&mut bytes, &mut rest[i]);
        filled.push(
            Artifact {
                id: artifact.artifact.clone(),
                bytes,
                media_type: "application/octet-stream".to_owned(),
            },
        );
        i = i + 1;
    }
    proof {
        assert(seqs::views(filled@) =~= request_artifacts(all, given));
    }
    Ok(filled)
}

/// Builds the request that leads to a selected state from the plan for it and the retained
/// bytes of the plan's artifacts, in their order. Bytes that do not have the length of their
/// artifact are refused; the first ones count.
pub fn selected_request(
    namespace: String,
    current_head: String,
    graph: TransitionGraph,
    description: &TransitionDescription,
    plan: SelectedPlan,
    contents: Vec<Vec<u8>>,
) -> (request: Result<PrepareRequest, PreparedStoreIssue>)
    requires
        contents@.len() == plan.artifacts@.len(),
    ensures
        match request {
            Ok(request) => {
                &&& forall|i: int|
                    0 <= i < plan.artifacts@.len() ==> has_length(
                        #[trigger] plan.artifacts@[i]@,
                        contents@[i]@,
                    )
                &&& request@ == selected_request_of(
                    namespace@,
                    current_head@,
                    graph@,
                    description@,
                    plan,
                    seqs::views(contents@),
                )
            },
            Err(issue) => exists|k: int|
                {
                    &&& 0 <= k < plan.artifacts@.len()
                    &&& !has_length(#[trigger] plan.artifacts@[k]@, contents@[k]@)
                    &&& forall|i: int|
                        0 <= i < k ==> has_length(#[trigger] plan.artifacts@[i]@, contents@[i]@)
                    &&& issue@ == selected_state::invalid_record(
                        "retained blob "@ + plan.artifacts@[k].digest@
                            + " differs from desired target metadata"@,
                    )
                },
        },
{
    let SelectedPlan { operations, artifacts } = plan;
    let artifacts = match fill_artifacts(artifacts, contents) {
        Err(issue) => {
            return Err(issue);
        },
        Ok(artifacts) => artifacts,
    };
    let (graph_digest, retained) = match graph {
        TransitionGraph::Retained { digest, inputs } => (digest, inputs),
        TransitionGraph::Fresh { digest } => (digest, Vec::new()),
    };
    let inputs = transition_inputs(description, current_head.as_str(), &retained);
    let mut findings: Vec<Finding> = Vec::new();
    findings.push(description.finding(namespace.as_str()));
    let transforms: Vec<TransformProvenance> = Vec::new();
    proof {
        assert(seqs::views(retained@) =~= graph@.retained_inputs());
        assert(seqs::views(findings@) =~= seq![findings@[0]@]);
        assert(seqs::views(transforms@) =~= Seq::empty());
    }
    let plan = RichPlan { inputs, artifacts, findings, transforms, operations };
    Ok(PrepareRequest { namespace, expected_head: Some(current_head), graph_digest, plan })
}

/// A transition submits nothing but what it is described as: its request names its namespace
/// and head, is bound to the described digest by its first input, and asks for approval.
pub proof fn lemma_transition_request_is_bound(
    namespace: Seq<char>,
    current_head: Seq<char>,
    graph: TransitionGraphModel,
    description: TransitionDescription<Seq<char>>,
    plan: SelectedPlan,
    contents: Seq<Seq<u8>>,
)
    ensures
        ({
            let request = selected_request_of(
                namespace,
                current_head,
                graph,
                description,
                plan,
                contents,
            );
            &&& request.namespace == namespace
            &&& request.expected_head == Some(current_head)
            &&& request.plan.findings.len() == 1
            &&& request.plan.findings[0].code == description.code()
            &&& request.plan.findings[0].approval_required
            &&& request.plan.inputs.len() > 0
            &&& request.plan.inputs[0] == (PlanInput {
                kind: InputKind::Other,
                name: description.bound_input(),
                digest: description.bound_digest(current_head),
            })
            &&& request.plan.artifacts.len() == plan.artifacts@.len()
            &&& request.plan.operations.len() == plan.operations@.len()
        }),
{
}

/// The request carries the plan over as it is: its operations in their order, and for each of its
/// artifacts the retained bytes under the artifact's own name. It belongs to the graph of the
/// transition, and no transform ran for it.
pub proof fn lemma_transition_request_carries_its_plan(
    namespace: Seq<char>,
    current_head: Seq<char>,
    graph: TransitionGraphModel,
    description: TransitionDescription<Seq<char>>,
    plan: SelectedPlan,
    contents: Seq<Seq<u8>>,
)
    requires
        contents.len() == plan.artifacts@.len(),
    ensures
        ({
            let request = selected_request_of(
                namespace,
                current_head,
                graph,
                description,
                plan,
                contents,
            );
            &&& match graph {
                TransitionGraph::Retained { digest, inputs: _ } => request.graph_digest == digest,
                TransitionGraph::Fresh { digest } => request.graph_digest == digest
                    && request.plan.inputs.len() == 1,
            }
            &&& request.plan.transforms.len() == 0
            &&& request.plan.operations.len() == plan.operations@.len()
            &&& forall|i: int|
                0 <= i < plan.operations@.len() ==> #[trigger] request.plan.operations[i]
                    == plan.operations@[i]@
            &&& request.plan.artifacts.len() == plan.artifacts@.len()
            &&& forall|i: int|
                0 <= i < plan.artifacts@.len() ==> (#[trigger] request.plan.artifacts[i]).id
                    == plan.artifacts@[i].artifact@ && request.plan.artifacts[i].bytes
                    == contents[i] && request.plan.artifacts[i].media_type
                    == "application/octet-stream"@
        }),
{
}

/// Whatever describes the retained graph goes into the request of a transition that carries the
/// graph on, and nothing else of the retained record does.
pub proof fn lemma_transition_request_carries_its_graph(
    namespace: Seq<char>,
    current_head: Seq<char>,
    digest: Seq<char>,
    inputs: Seq<PlanInput<Seq<char>>>,
    description: TransitionDescription<Seq<char>>,
    plan: SelectedPlan,
    contents: Seq<Seq<u8>>,
    index: int,
)
    requires
        0 <= index < inputs.len(),
    ensures
        ({
            let graph: TransitionGraphModel = TransitionGraph::Retained { digest, inputs };
            let request = selected_request_of(
                namespace,
                current_head,
                graph,
                description,
                plan,
                contents,
            );
            &&& (inputs[index].kind is Source || inputs[index].kind is Lock || inputs[index].kind
                is Component) ==> request.plan.inputs.contains(inputs[index])
            &&& forall|k: int|
                1 <= k < request.plan.inputs.len() ==> inputs.contains(
                    #[trigger] request.plan.inputs[k],
                ) && request.plan.inputs[k].kind !is Config && request.plan.inputs[k].kind !is Asset
        }),
{
    let kept = lifecycle::graph_inputs(inputs);
    lifecycle::lemma_graph_inputs_are_taken_over(inputs);
    let graph: TransitionGraphModel = TransitionGraph::Retained { digest, inputs };
    let request = selected_request_of(namespace, current_head, graph, description, plan, contents);
    let all = request.plan.inputs;
    assert(forall|k: int| 1 <= k < all.len() ==> #[trigger] all[k] == kept[k - 1]);
    assert forall|k: int| 1 <= k < all.len() implies inputs.contains(#[trigger] all[k])
        && all[k].kind !is Config && all[k].kind !is Asset by {
        assert(kept.contains(kept[k - 1]));
    }
    if lifecycle::describes_graph(inputs[index]) {
        assert(inputs.contains(inputs[index]));
        assert(kept.contains(inputs[index]));
        let k = choose|k: int| 0 <= k < kept.len() && kept[k] == inputs[index];
        assert(all[k + 1] == kept[k]);
    }
}

} // verus!
