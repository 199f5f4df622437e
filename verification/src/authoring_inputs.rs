//! What the plan of an authoring configuration captures, and when a retained evaluation stands
//! in for a new one.

use vstd::prelude::*;
use vstd::utf8::*;

use crate::authoring;
use crate::config_documents;
use crate::config_documents::{LockedNode, NodeModel};
use crate::config_walk;
use crate::config_walk::{component_profile_inputs, PackContent};
use crate::error::EngineError;
use crate::lifecycle::{LOCKED_COMPONENT_PROFILES_INPUT, STATIC_PROFILE_INPUT_PREFIX};
use crate::plan::{plan_input, Finding, InputKind, PlanInput};
use crate::prepare_error::StaticPrepareError;
use crate::prepare_reuse;
use crate::prepare_reuse::is_consent_shape_refusal;
use crate::seqs;
use crate::text;
use crate::text::{concat2, concat3, concat5, debug_text, decimal_text};

verus! {

/// Checks that an authoring root stands alone: its packs cannot have dependencies yet.
pub fn check_single_pack(packs: usize) -> (checked: Result<(), StaticPrepareError>)
    ensures
        checked is Ok == (packs <= 1),
        checked matches Err(error) ==> error@ == authoring::invalid_config(
            "authoring roots do not support pack dependencies yet"@,
        ),
{
    if packs > 1 {
        return Err(
            StaticPrepareError::InvalidConfig {
                detail: "authoring roots do not support pack dependencies yet".to_owned(),
            },
        );
    }
    Ok(())
}

/// Builds the bytes whose digest identifies the evaluator.
pub fn evaluator_preimage(version: u64) -> (bytes: Vec<u8>)
    ensures
        bytes@ == config_documents::domain("malm-authoring-evaluator-v1"@) + encode_utf8(
            text::decimal(version as nat),
        ),
{
    let mut bytes: Vec<u8> = Vec::new();
    bytes.extend_from_slice("malm-authoring-evaluator-v1".as_bytes());
    bytes.push(0);
    let number = decimal_text(version);
    bytes.extend_from_slice(number.as_str().as_bytes());
    assert(bytes@ =~= config_documents::domain("malm-authoring-evaluator-v1"@) + encode_utf8(
        text::decimal(version as nat),
    ));
    bytes
}

/// Builds the bytes whose digest identifies what unpacks assets.
pub fn decompressor_preimage() -> (bytes: Vec<u8>)
    ensures
        bytes@ == config_documents::domain("malm-authoring-asset-decompressor-v1"@) + encode_utf8(
            "xz/1"@,
        ),
{
    let mut bytes: Vec<u8> = Vec::new();
    bytes.extend_from_slice("malm-authoring-asset-decompressor-v1".as_bytes());
    bytes.push(0);
    bytes.extend_from_slice("xz/1".as_bytes());
    assert(bytes@ =~= config_documents::domain("malm-authoring-asset-decompressor-v1"@)
        + encode_utf8("xz/1"@));
    bytes
}

/// The inputs of an authoring plan: what was selected, the profile, the lock, the pack, the
/// execution profiles with the digest over all of them, the evaluator, and the overlays.
pub open spec fn authoring_inputs_of(
    selected: Seq<PlanInput<Seq<char>>>,
    profile: Seq<char>,
    profile_digest: Seq<char>,
    graph_digest: Seq<char>,
    pack: PackContent<Seq<char>>,
    nodes: Seq<NodeModel>,
    profiles_digest: Seq<char>,
    evaluator_digest: Seq<char>,
    overlays: Seq<PlanInput<Seq<char>>>,
) -> Seq<PlanInput<Seq<char>>> {
    selected + seq![
        PlanInput {
            kind: InputKind::Other,
            name: STATIC_PROFILE_INPUT_PREFIX@ + profile,
            digest: profile_digest,
        },
        PlanInput { kind: InputKind::Lock, name: "locked-graph"@, digest: graph_digest },
        config_walk::pack_input(pack),
    ] + config_walk::profile_inputs_of(nodes) + seq![
        PlanInput {
            kind: InputKind::Other,
            name: LOCKED_COMPONENT_PROFILES_INPUT@,
            digest: profiles_digest,
        },
        PlanInput {
            kind: InputKind::Other,
            name: "authoring-evaluator"@,
            digest: evaluator_digest,
        },
    ] + overlays
}

/// Builds the inputs of an authoring plan.
pub fn authoring_inputs(
    selected: Vec<PlanInput>,
    profile: &str,
    profile_digest: &str,
    graph_digest: &str,
    pack: &PackContent,
    nodes: &Vec<LockedNode>,
    profiles_digest: &str,
    evaluator_digest: &str,
    overlays: Vec<PlanInput>,
) -> (inputs: Vec<PlanInput>)
    ensures
        seqs::views(inputs@) == authoring_inputs_of(
            seqs::views(selected@),
            profile@,
            profile_digest@,
            graph_digest@,
            pack@,
            seqs::views(nodes@),
            profiles_digest@,
            evaluator_digest@,
            seqs::views(overlays@),
        ),
{
    let ghost start = selected@;
    let mut inputs = selected;
    let first = plan_input(
        InputKind::Other,
        concat2(STATIC_PROFILE_INPUT_PREFIX, profile),
        profile_digest,
    );
    let second = plan_input(InputKind::Lock, "locked-graph".to_owned(), graph_digest);
    let third = plan_input(
        InputKind::Source,
        concat2("pack:", pack.node_id.as_str()),
        pack.content_digest.as_str(),
    );
    let ghost captured = seq![first@, second@, third@];
    inputs.push(first);
    inputs.push(second);
    inputs.push(third);
    let ghost listed = inputs@;
    let mut profiles = component_profile_inputs(nodes);
    let ghost of_nodes = profiles@;
    inputs.append(&mut profiles);
    let ghost profiled = inputs@;
    let overall = plan_input(
        InputKind::Other,
        LOCKED_COMPONENT_PROFILES_INPUT.to_owned(),
        profiles_digest,
    );
    let evaluator = plan_input(
        InputKind::Other,
        "authoring-evaluator".to_owned(),
        evaluator_digest,
    );
    let ghost pair = seq![overall@, evaluator@];
    inputs.push(overall);
    inputs.push(evaluator);
    let ghost identified = inputs@;
    let ghost applied = overlays@;
    let mut overlays = overlays;
    inputs.append(&mut overlays);
    proof {
        assert(seqs::views(listed) =~= seqs::views(start) + captured);
        assert(seqs::views(profiled) =~= seqs::views(listed) + seqs::views(of_nodes));
        assert(seqs::views(identified) =~= seqs::views(profiled) + pair);
        assert(seqs::views(inputs@) =~= seqs::views(identified) + seqs::views(applied));
    }
    inputs
}

/// The finding about an include that was not read.
pub open spec fn include_finding(skipped: Seq<char>) -> Finding<Seq<char>> {
    Finding {
        code: "AUTHORING-EXTERNAL-INCLUDE-SKIPPED"@,
        message: "external include "@ + text::debug_notation(skipped)
            + " was not read; machine-local values require an explicit overlay"@,
        approval_required: false,
    }
}

/// Tells of every include that was not read, behind the findings so far.
pub fn add_include_findings(findings: &mut Vec<Finding>, skipped: &Vec<String>)
    ensures
        seqs::views(final(findings)@) == seqs::views(old(findings)@) + Seq::new(
            skipped@.len(),
            |i: int| include_finding(skipped@[i]@),
        ),
{
    let ghost start = seqs::views(findings@);
    let ghost wanted = Seq::new(skipped@.len(), |i: int| include_finding(skipped@[i]@));
    let mut i: usize = 0;
    proof {
        assert(start =~= start + wanted.take(0));
    }
    while i < skipped.len()
        invariant
            i <= skipped.len(),
            wanted == Seq::new(skipped@.len(), |k: int| include_finding(skipped@[k]@)),
            seqs::views(findings@) == start + wanted.take(i as int),
        decreases skipped.len() - i,
    {
        let ghost before = findings@;
        let finding = Finding {
            code: "AUTHORING-EXTERNAL-INCLUDE-SKIPPED".to_owned(),
            message: concat3(
                "external include ",
                debug_text(skipped[i].as_str()).as_str(),
                " was not read; machine-local values require an explicit overlay",
            ),
            approval_required: false,
        };
        let ghost viewed = finding@;
        findings.push(finding);
        proof {
            assert(wanted[i as int] == viewed);
            assert(seqs::views(findings@) =~= seqs::views(before).push(viewed));
            assert(start + wanted.take(i + 1) =~= (start + wanted.take(i as int)).push(viewed));
        }
        i = i + 1;
    }
    proof {
        assert(wanted.take(wanted.len() as int) =~= wanted);
    }
}

/// What a component does for an output.
#[derive(Debug, Clone, Copy, PartialEq, Eq, Structural)]
pub enum ComponentRole {
    Renderer,
    Transform,
}

impl ComponentRole {
    /// The word for the role.
    pub open spec fn words(self) -> Seq<char> {
        match self {
            ComponentRole::Renderer => "renderer"@,
            ComponentRole::Transform => "transform"@,
        }
    }

    /// Returns the word for the role.
    pub fn name(self) -> (name: &'static str)
        ensures
            name@ == self.words(),
    {
        match self {
            ComponentRole::Renderer => "renderer",
            ComponentRole::Transform => "transform",
        }
    }

    /// Returns the failure of an output that names a component by an invalid name.
    pub fn invalid_name(self, destination: &str, detail: &str) -> (error: StaticPrepareError)
        ensures
            error@ == authoring::invalid_config(
                "output "@ + text::debug_notation(destination@) + " declares invalid "@
                    + self.words() + (" component name: "@ + detail@),
            ),
    {
        let ending = concat2(" component name: ", detail);
        StaticPrepareError::InvalidConfig {
            detail: concat5(
                "output ",
                debug_text(destination).as_str(),
                " declares invalid ",
                self.name(),
                ending.as_str(),
            ),
        }
    }

    /// Returns the failure of an output that names a component which is not in the pack.
    pub fn not_bundled(self, destination: &str, component: &str) -> (error: StaticPrepareError)
        ensures
            error@ == authoring::invalid_config(
                "output "@ + text::debug_notation(destination@) + " declares "@ + self.words() + (
                " component `"@ + component@ + "`, which the root pack does not bundle"@),
            ),
    {
        let ending = concat3(
            " component `",
            component,
            "`, which the root pack does not bundle",
        );
        StaticPrepareError::InvalidConfig {
            detail: concat5(
                "output ",
                debug_text(destination).as_str(),
                " declares ",
                self.name(),
                ending.as_str(),
            ),
        }
    }
}

/// What follows a retained evaluation that was handed in.
#[derive(Debug)]
pub enum ReuseOutcome {
    /// The plan stands.
    Planned,
    /// The live targets need an evaluation in full.
    Evaluate,
    Failed(StaticPrepareError),
}

/// Tells whether a retained evaluation may stand in: not where the deployment follows a root.
pub fn may_reuse(follows_root: bool) -> (allowed: bool)
    ensures
        allowed == !follows_root,
{
    !follows_root
}

/// Decides what follows a retained evaluation that was handed in: a refusal over the state of
/// the live targets leads to an evaluation in full, any other one is a failure.
pub fn reuse_outcome(submitted: Result<(), EngineError>) -> (outcome: ReuseOutcome)
    ensures
        match submitted {
            Ok(_) => outcome is Planned,
            Err(error) => if prepare_reuse::is_consent_refusal(error@) {
                outcome is Evaluate
            } else {
                outcome matches ReuseOutcome::Failed(failure) && failure@ == (StaticPrepareError::<
                    Seq<char>,
                    Seq<u8>,
                >::Store { source: error@ })
            },
        },
{
    match submitted {
        Ok(_) => ReuseOutcome::Planned,
        Err(error) => {
            if is_consent_shape_refusal(&error) {
                ReuseOutcome::Evaluate
            } else {
                ReuseOutcome::Failed(StaticPrepareError::Store { source: error })
            }
        },
    }
}

/// The inputs of an authoring plan tell of everything that it was made from: what was selected,
/// the profile, the locked graph, the pack by its content, the execution profiles, the evaluator
/// and the overlays, in this order.
pub proof fn lemma_authoring_inputs_tell_of_everything(
    selected: Seq<PlanInput<Seq<char>>>,
    profile: Seq<char>,
    profile_digest: Seq<char>,
    graph_digest: Seq<char>,
    pack: PackContent<Seq<char>>,
    nodes: Seq<NodeModel>,
    profiles_digest: Seq<char>,
    evaluator_digest: Seq<char>,
    overlays: Seq<PlanInput<Seq<char>>>,
)
    ensures
        ({
            let inputs = authoring_inputs_of(
                selected,
                profile,
                profile_digest,
                graph_digest,
                pack,
                nodes,
                profiles_digest,
                evaluator_digest,
                overlays,
            );
            let own = selected.len() as int;
            let shared = own + 3 + config_walk::profile_inputs_of(nodes).len();
            &&& inputs.len() == shared + 2 + overlays.len()
            &&& selected.is_prefix_of(inputs)
            &&& inputs[own].name == "static-profile:"@ + profile
            &&& inputs[own].digest == profile_digest
            &&& inputs[own + 1].kind is Lock
            &&& inputs[own + 1].name == "locked-graph"@
            &&& inputs[own + 1].digest == graph_digest
            &&& inputs[own + 2].kind is Source
            &&& inputs[own + 2].name == "pack:"@ + pack.node_id
            &&& inputs[own + 2].digest == pack.content_digest
            &&& inputs.subrange(own + 3, shared) == config_walk::profile_inputs_of(nodes)
            &&& inputs[shared].name == "locked-component-profiles"@
            &&& inputs[shared].digest == profiles_digest
            &&& inputs[shared + 1].name == "authoring-evaluator"@
            &&& inputs[shared + 1].digest == evaluator_digest
            &&& inputs.skip(shared + 2) == overlays
        }),
{
    let inputs = authoring_inputs_of(
        selected,
        profile,
        profile_digest,
        graph_digest,
        pack,
        nodes,
        profiles_digest,
        evaluator_digest,
        overlays,
    );
    let own = selected.len() as int;
    let shared = own + 3 + config_walk::profile_inputs_of(nodes).len();
    assert(inputs.subrange(own + 3, shared) =~= config_walk::profile_inputs_of(nodes));
    assert(inputs.skip(shared + 2) =~= overlays);
}

} // verus!
