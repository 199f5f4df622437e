//! Requests, invocations and observed operations, and packs that are published twice.

use malm_engine::component_invocation::{
    component_implementation, component_invocation, component_use, VerifiedComponent,
};
use malm_engine::deployment::StaticProfile;
use malm_engine::error::EngineError;
use malm_engine::events::{
    observe_action, EngineOperation, ObserveAction, ObserveStep, OperationCounter,
    OperationOutcome, ProgressEvent,
};
use malm_engine::lifecycle::{transition_preimage, TransitionDescription};
use malm_engine::object_publish::{start_pack_publication, PublishPackStep};
use malm_engine::objects::{ObjectFlavor, ObjectTarget};
use malm_engine::pack_manifest::{
    decode_pack_manifest_object, encode_pack_manifest_object, PackManifestMemberV1,
};
use malm_engine::pack_store::LoadPackStep;
use malm_engine::plan::{InputKind, PlanInput};
use malm_engine::prepare_request::{planned_request, selected_request, TransitionGraph};
use malm_engine::rich_planner::RichPlan;
use malm_engine::selected_state::{
    prepare_selected_state, Change, Lifecycle, Mutation, SelectedPlan,
};
use malm_engine::store_steps::Progress;
use malm_engine::store_types::{PackObjectPublication, StoreAccess};
use malm_engine::transform::Implementation;

fn text(words: &str) -> String {
    words.to_owned()
}

fn place(path: &str, digest: &str, byte_len: u64) -> Mutation {
    Mutation {
        authority: text("home"),
        relative_path: text(path),
        change: Change::PlaceFile { digest: text(digest), byte_len, mode: 0o644 },
    }
}

fn two_files() -> SelectedPlan {
    let mutations =
        vec![place("b", "sha256-2", 2), place("a", "sha256-1", 1), place("c", "sha256-2", 2)];
    prepare_selected_state(Lifecycle::Enabled, &Vec::new(), &mutations, &Vec::new(), false).unwrap()
}

fn input(kind: InputKind, name: &str) -> PlanInput {
    PlanInput { kind, name: text(name), digest: text("sha256-i") }
}

#[test]
fn selected_states_are_requested_for_their_head() {
    let request = selected_request(
        text("main"),
        text("sha256-head"),
        TransitionGraph::Retained {
            digest: text("sha256-graph"),
            inputs: vec![input(InputKind::Lock, "lock"), input(InputKind::Asset, "asset")],
        },
        &TransitionDescription::Disable,
        two_files(),
        vec![b"1".to_vec(), b"22".to_vec()],
    )
    .unwrap();
    assert_eq!(request.namespace, "main");
    assert_eq!(request.expected_head.as_deref(), Some("sha256-head"));
    assert_eq!(request.graph_digest, "sha256-graph");
    let inputs: Vec<(InputKind, &str, &str)> = request
        .plan
        .inputs
        .iter()
        .map(|input| (input.kind, input.name.as_str(), input.digest.as_str()))
        .collect();
    assert_eq!(
        inputs,
        [
            (InputKind::Other, "lifecycle-disable-head", "sha256-head"),
            (InputKind::Lock, "lock", "sha256-i"),
        ]
    );
    assert_eq!(request.plan.findings.len(), 1);
    assert_eq!(request.plan.findings[0].code, "disable");
    assert!(request.plan.findings[0].approval_required);
    let artifacts: Vec<(&str, &[u8], &str)> = request
        .plan
        .artifacts
        .iter()
        .map(|artifact| {
            (artifact.id.as_str(), artifact.bytes.as_slice(), artifact.media_type.as_str())
        })
        .collect();
    assert_eq!(
        artifacts,
        [
            ("retained/1", &b"1"[..], "application/octet-stream"),
            ("retained/2", &b"22"[..], "application/octet-stream"),
        ]
    );
    assert_eq!(request.plan.operations.len(), 3);
    assert!(request.plan.transforms.is_empty());
}

#[test]
fn requests_without_a_retained_graph_name_the_transition() {
    let description = TransitionDescription::Checkout(text("sha256-old"));
    assert_eq!(
        description.graph_preimage("sha256-head", Lifecycle::Enabled, "sha256-s"),
        transition_preimage("checkout", "sha256-head", Lifecycle::Enabled, "sha256-s")
    );
    let request = selected_request(
        text("main"),
        text("sha256-head"),
        TransitionGraph::Fresh { digest: text("sha256-fresh") },
        &description,
        two_files(),
        vec![b"1".to_vec(), b"22".to_vec()],
    )
    .unwrap();
    assert_eq!(request.graph_digest, "sha256-fresh");
    assert_eq!(request.plan.inputs.len(), 1);
    assert_eq!(request.plan.inputs[0].name, "checkout-generation");
    assert_eq!(request.plan.inputs[0].digest, "sha256-old");
}

#[test]
fn retained_bytes_of_another_length_are_refused() {
    let refused = selected_request(
        text("main"),
        text("sha256-head"),
        TransitionGraph::Fresh { digest: text("sha256-fresh") },
        &TransitionDescription::Enable,
        two_files(),
        vec![b"1".to_vec(), b"333".to_vec()],
    );
    assert_eq!(
        refused.unwrap_err().message(),
        "invalid prepared record: retained blob sha256-2 differs from desired target metadata"
    );
}

#[test]
fn plans_are_requested_for_their_namespace() {
    let plan = RichPlan {
        inputs: vec![input(InputKind::Source, "s")],
        artifacts: Vec::new(),
        findings: Vec::new(),
        transforms: Vec::new(),
        operations: Vec::new(),
    };
    let request = planned_request(text("main"), None, text("sha256-g"), plan);
    assert_eq!(request.namespace, "main");
    assert_eq!(request.expected_head, None);
    assert_eq!(request.graph_digest, "sha256-g");
    assert_eq!(request.plan.inputs[0].name, "s");
}

#[test]
fn components_are_handed_the_authorization_of_their_profile() {
    let profile = StaticProfile {
        graph_digest: text("sha256-g"),
        component_authorization: vec![text("sha256-c"), text("sha256-d")],
        namespace: text("main"),
        target_authority: text("home"),
        expected_head: None,
    };
    let component = VerifiedComponent {
        node_id: text("n"),
        pack_digest: text("sha256-p"),
        path: text("c.wasm"),
        name: text("fmt"),
        digest: text("sha256-c"),
        interface: text("i"),
        execution_profile: text("sha256-e"),
        bytes: b"code".to_vec(),
    };
    let request = b"request".to_vec();
    let invocation = component_invocation(&profile, "minify", &component, &request);
    assert_eq!(invocation.authorization, &profile.component_authorization);
    assert_eq!(invocation.identity.name, "minify");
    assert_eq!(invocation.identity.component_digest, "sha256-c");
    assert_eq!(invocation.identity.interface, "i");
    assert_eq!(invocation.identity.execution_profile, "sha256-e");
    assert_eq!(invocation.component_bytes, b"code");
    assert_eq!(invocation.request, b"request");
    assert!(matches!(
        component_implementation(&component),
        Implementation::Component { node_id, component_digest, .. }
            if node_id == "n" && component_digest == "sha256-c"
    ));
    assert_eq!(component_use(&component).name, "fmt");
}

fn observed(error: Option<&EngineError>) -> Vec<String> {
    let mut counter = OperationCounter::of_engine();
    let (operation_id, _) = counter.start(EngineOperation::FsckV1);
    assert_eq!(operation_id.get(), 1);
    let mut seen = Vec::new();
    let mut step = Some(ObserveStep::Announce);
    while let Some(current) = step {
        let failure = error.map(EngineError::failure);
        seen.push(match observe_action(current, operation_id, EngineOperation::FsckV1, failure) {
            ObserveAction::Progress(ProgressEvent::OperationStarted { .. }) => text("started"),
            ObserveAction::Progress(ProgressEvent::OperationFinished { outcome, .. }) => {
                match outcome {
                    OperationOutcome::Succeeded => text("succeeded"),
                    _ => text("failed"),
                }
            }
            ObserveAction::Work => text("work"),
            ObserveAction::Diagnostic(event) => format!("{:?}", event.failure().kind()),
            other => format!("{other:?}"),
        });
        step = current.after(error.is_some());
    }
    assert_eq!(counter.start(EngineOperation::FsckV1).0.get(), 2);
    seen
}

#[test]
fn observed_operations_keep_their_order() {
    assert_eq!(observed(None), ["started", "work", "succeeded"]);
    assert_eq!(
        observed(Some(&EngineError::ReadOnlyStore)),
        ["started", "work", "Engine", "failed"]
    );
}

struct Shelf {
    manifest: Option<Vec<u8>>,
}

fn publish(shelf: &mut Shelf, manifest: &[u8]) -> PackObjectPublication {
    let mut progress = start_pack_publication(StoreAccess::ReadWrite, false);
    loop {
        let step = match progress {
            Progress::Next(step) => step,
            Progress::Done(outcome) => return outcome,
            Progress::Failed(error) => panic!("{}", error.message()),
        };
        let reply = match step {
            PublishPackStep::LookUpPack => false,
            PublishPackStep::LookUpManifest => shelf.manifest.is_some(),
            PublishPackStep::Link => {
                let free = shelf.manifest.is_none();
                if free {
                    shelf.manifest = Some(manifest.to_vec());
                }
                free
            }
            _ => true,
        };
        progress = step.after(Ok(reply), false);
    }
}

#[test]
fn packs_are_published_once_and_read_back() {
    let member = |path: &str, blob: &str| PackManifestMemberV1 {
        path: text(path),
        blob: text(blob),
        byte_len: 3,
    };
    let bytes = encode_pack_manifest_object(&vec![member("b", "sha256-2"), member("a", "sha256-1")]);
    let mut shelf = Shelf { manifest: None };
    assert_eq!(publish(&mut shelf, &bytes), PackObjectPublication::Published);
    assert_eq!(publish(&mut shelf, b"other"), PackObjectPublication::Reused);
    assert_eq!(shelf.manifest.as_deref(), Some(bytes.as_slice()));
    let reading = decode_pack_manifest_object(&shelf.manifest.unwrap());
    assert!(reading.problem.is_none());
    let paths: Vec<&str> = reading.members.iter().map(|member| member.path.as_str()).collect();
    assert_eq!(paths, ["a", "b"]);
    let target =
        ObjectTarget { flavor: ObjectFlavor::Pack, digest: text("sha256-p"), path: Vec::new() };
    let mut steps = Vec::new();
    let mut progress = Progress::Next(LoadPackStep::OpenStore);
    while let Progress::Next(step) = progress {
        steps.push(format!("{step:?}"));
        progress = step.after(Ok(true), &target);
    }
    assert!(matches!(progress, Progress::Done(())));
    assert_eq!(steps.last().unwrap(), "CheckDigest");
}
