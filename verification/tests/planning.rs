//! Selecting state, moving between generations, and planning outputs.

use malm_engine::assets::AssetEntry;
use malm_engine::authoring_inputs::{
    add_include_findings, authoring_inputs, check_single_pack, decompressor_preimage,
    evaluator_preimage, may_reuse, reuse_outcome, ComponentRole, ReuseOutcome,
};
use malm_engine::authoring_planner::{
    AuthoringOutput, AuthoringPlanner, AuthoringSymlink, AuthoringWork, OutputContent,
};
use malm_engine::component_profiles::profiles_preimage;
use malm_engine::config_documents::{
    check_config_entry, choose_profile, deployed_profile, document_authority, pack_for_authority,
    resolve_edges, DocumentAuthority, LockedComponent, LockedEdge, LockedNode, SelectedName,
};
use malm_engine::config_walk::{
    component_profile_inputs, evaluation_inputs, DocumentId, DocumentWalk, IdentifiedDocument,
    PackContent,
};
use malm_engine::error::{EngineError, PreparedStoreIssue};
use malm_engine::lifecycle::{transition_inputs, transition_preimage, TransitionDescription};
use malm_engine::plan::{
    append_identity_text, has_destination, plan_input, Action, Finding, InputKind, Operation,
    PlanInput,
};
use malm_engine::prepare_error::{PackResourceKind, StaticPrepareError};
use malm_engine::prepare_reuse::{
    code_is_regenerated, is_consent_shape_refusal, is_reusable, name_is_derived,
    record_matches_core, reuse_after_list, reuse_after_load, reused_findings, reused_operations,
    start_reuse, ReuseStep,
};
use malm_engine::rich_outputs::{
    archive_decoder_preimage, check_pack_file, resolve_transform_component,
    validate_archive_decoder, ArchiveDecoder, FileReference, FoundFile,
};
use malm_engine::rich_planner::{
    start_plan, ComponentUse, Output, OutputKind, ResourceFile, RichPlan, RichPlanner, RichWork,
    TransformReply,
};
use malm_engine::selected_state::{
    check_retained_length, digest_is_tagged, digits_of_digest, effective_present,
    prepare_selected_state, retained_artifact_id, Change, DesiredTarget, Lifecycle, Mutation,
};
use malm_engine::transform::{
    append_transform_findings, append_transform_provenance, map_transform_error,
    record_diagnostic, Diagnostic, Implementation, Location, Severity, SourceDocument,
    TransformInvocationError, TransformProvenance,
};
use malm_engine::transitions::{
    check_dropped_point, checkout, disable, enable, point_to_add, point_to_enable,
    remove_namespace, require_head, require_namespace, restore_point_at, retained_contents,
    update_retention, DesiredSnapshot, Generation, GraphAuthority, RetentionUpdate, TargetContent,
};

fn text(words: &str) -> String {
    words.to_owned()
}

fn target(path: &str, present: bool) -> DesiredTarget {
    DesiredTarget { authority: text("home"), relative_path: text(path), present }
}

fn mutation(path: &str, change: Change) -> Mutation {
    Mutation { authority: text("home"), relative_path: text(path), change }
}

fn place_file(digest: &str, byte_len: u64) -> Change {
    Change::PlaceFile { digest: text(digest), byte_len, mode: 0o644 }
}

fn actions(operations: &[Operation]) -> Vec<String> {
    operations
        .iter()
        .map(|operation| format!("{} {:?}", operation.relative_path, operation.action))
        .collect()
}

#[test]
fn deployed_targets_are_replaced_and_others_placed() {
    let targets = vec![target("old", true), target("gone", false)];
    assert!(effective_present(Lifecycle::Enabled, &targets, "home", "old"));
    assert!(!effective_present(Lifecycle::Enabled, &targets, "home", "gone"));
    assert!(!effective_present(Lifecycle::Enabled, &targets, "etc", "old"));
    assert!(!effective_present(Lifecycle::Disabled, &targets, "home", "old"));
    let mutations = vec![
        mutation("old", place_file("sha256-1", 5)),
        mutation("new", place_file("sha256-1", 5)),
        mutation("dir", Change::EnsureDirectory { mode: 0o755 }),
        mutation("old2", Change::RemoveLeaf),
    ];
    let desired = vec![target("new", true), target("gone", false)];
    let plan =
        prepare_selected_state(Lifecycle::Enabled, &targets, &mutations, &desired, true).unwrap();
    let told = actions(&plan.operations);
    assert!(told[0].starts_with("old ReplaceFile"));
    assert!(told[1].starts_with("new PlaceFile"));
    assert!(told[2].starts_with("dir EnsureDirectory"));
    assert!(told[3].starts_with("old2 RemoveLeaf"));
    assert_eq!(plan.artifacts.len(), 1);
    assert_eq!(plan.artifacts[0].digest, "sha256-1");
    assert_eq!(plan.artifacts[0].artifact, retained_artifact_id("sha256-1"));
}

#[test]
fn retained_lengths_must_agree() {
    let mutations =
        vec![mutation("a", place_file("sha256-1", 5)), mutation("b", place_file("sha256-1", 6))];
    let refused =
        prepare_selected_state(Lifecycle::Enabled, &Vec::new(), &mutations, &Vec::new(), false);
    assert_eq!(
        refused.unwrap_err().message(),
        "invalid prepared record: retained digest has conflicting byte lengths"
    );
    let large = vec![
        mutation("a", place_file("sha256-1", 1 << 30)),
        mutation("b", place_file("sha256-2", 1)),
    ];
    let refused =
        prepare_selected_state(Lifecycle::Enabled, &Vec::new(), &large, &Vec::new(), false);
    assert_eq!(
        refused.unwrap_err().message(),
        "invalid prepared record: retained artifacts exceed the prepared-plan byte limit"
    );
    assert!(check_retained_length("sha256-1", 5, 5).is_ok());
    assert!(check_retained_length("sha256-1", 5, 6).is_err());
    assert!(digest_is_tagged("sha256-12"));
    assert!(!digest_is_tagged("sha1-12"));
    assert_eq!(digits_of_digest("sha256-12"), "12");
}

fn generation(lifecycle: Lifecycle) -> Generation {
    Generation {
        namespace: text("main"),
        lifecycle,
        snapshot_digest: text("sha256-s"),
        tracked_root: Some(text("sha256-t")),
        restore_point: None,
    }
}

#[test]
fn enabling_undoes_disabling() {
    let current = generation(Lifecycle::Enabled);
    let disabled = disable("sha256-h", &current).unwrap();
    assert_eq!(disabled.next_lifecycle, Lifecycle::Disabled);
    assert_eq!(disabled.desired, DesiredSnapshot::Empty);
    let mut after = generation(Lifecycle::Disabled);
    after.restore_point = disabled.restore_point;
    let point = point_to_enable(&after).unwrap();
    assert_eq!(point.generation, "sha256-h");
    let enabled = enable(&point, &current).unwrap();
    assert_eq!(enabled.next_lifecycle, Lifecycle::Enabled);
    assert_eq!(enabled.desired, DesiredSnapshot::Retained);
    assert_eq!(enabled.graph, GraphAuthority::Retained);
    assert_eq!(enabled.tracked_root.as_deref(), Some("sha256-t"));
}

#[test]
fn refused_transitions_say_why() {
    for (issue, words) in [
        (
            disable("h", &generation(Lifecycle::Disabled)).unwrap_err(),
            "namespace main is already disabled",
        ),
        (
            point_to_enable(&generation(Lifecycle::Enabled)).unwrap_err(),
            "namespace main is already enabled",
        ),
        (
            point_to_enable(&generation(Lifecycle::Disabled)).unwrap_err(),
            "disabled namespace main has no explicit restore point",
        ),
        (require_head("disable", "main", None).unwrap_err(), "disable requires a head for namespace main"),
        (
            require_namespace("checkout", "main", "other").unwrap_err(),
            "checkout selected a generation for another namespace",
        ),
        (
            point_to_add("other", "h", &generation(Lifecycle::Enabled)).unwrap_err(),
            "restore point generation belongs to another namespace",
        ),
    ] {
        assert!(issue.message().ends_with(words), "{}", issue.message());
    }
    let mut other = generation(Lifecycle::Enabled);
    other.snapshot_digest = text("sha256-other");
    let point = restore_point_at("sha256-h", &generation(Lifecycle::Enabled));
    assert!(enable(&point, &other).is_err());
    let mut holding = generation(Lifecycle::Disabled);
    holding.restore_point = Some(point);
    assert!(check_dropped_point(&holding, "sha256-h").is_err());
    assert!(check_dropped_point(&holding, "sha256-i").is_ok());
    assert_eq!(require_head("disable", "main", Some(text("h"))).unwrap(), "h");
}

#[test]
fn retention_updates_keep_the_state() {
    let current = generation(Lifecycle::Enabled);
    for update in [
        RetentionUpdate::HistoryPolicy,
        RetentionUpdate::Pin,
        RetentionUpdate::Unpin,
        RetentionUpdate::AddRestorePoint,
        RetentionUpdate::DropRestorePoint,
    ] {
        let selection = update_retention(update, &current);
        assert_eq!(selection.next_lifecycle, Lifecycle::Enabled);
        assert_eq!(selection.desired, DesiredSnapshot::Current);
        assert!(matches!(
            selection.description,
            TransitionDescription::RetentionAuthority(name) if name == update.as_str()
        ));
    }
    let removed = remove_namespace();
    assert_eq!(removed.graph, GraphAuthority::Nothing);
    let checked_out = checkout("sha256-d", &generation(Lifecycle::Disabled));
    assert_eq!(checked_out.desired, DesiredSnapshot::Empty);
    assert_eq!(checkout("sha256-d", &current).desired, DesiredSnapshot::Reconciled);
}

#[test]
fn retained_contents_are_listed_once_per_file() {
    let file = || TargetContent::File { digest: text("sha256-1"), byte_len: 5 };
    let contents = vec![
        TargetContent::Absent,
        file(),
        TargetContent::Directory,
        file(),
        TargetContent::Symlink { object: text("s") },
        TargetContent::Tree { tree: text("t") },
    ];
    let required = retained_contents(&contents);
    assert_eq!(
        format!("{required:?}"),
        "[File { digest: \"sha256-1\", byte_len: 5 }, Symlink { object: \"s\" }, Tree { tree: \"t\" }]"
    );
}

fn input(name: &str, digest: &str) -> PlanInput {
    plan_input(InputKind::Other, text(name), digest)
}

fn names(inputs: &[PlanInput]) -> Vec<String> {
    inputs.iter().map(|found| format!("{}={}", found.name, found.digest)).collect()
}

#[test]
fn transitions_are_told_apart() {
    let descriptions = [
        TransitionDescription::Disable,
        TransitionDescription::Enable,
        TransitionDescription::Checkout(text("sha256-g")),
        TransitionDescription::NamespaceRemoval,
        TransitionDescription::RetentionAuthority(text("pin")),
    ];
    let told: Vec<String> = descriptions
        .iter()
        .map(|description| {
            format!("{}: {}", description.finding_code(), description.finding_message("main"))
        })
        .collect();
    assert_eq!(
        told,
        [
            "disable: disable namespace main with an empty desired snapshot and exact restore point",
            "enable: enable namespace main from its exact restore point",
            "checkout: restore retained generation sha256-g",
            "namespace-removal: remove namespace main, release every live target, and drop its unpinned history authority",
            "pin: update namespace main retention authority (pin)",
        ]
    );
    assert!(descriptions[0].finding("main").approval_required);
    let retained = vec![
        input("static-profile:work", "1"),
        input("pack:x", "2"),
        input("locked-component-profiles", "3"),
    ];
    let inputs = transition_inputs(&descriptions[2], "sha256-h", &retained);
    assert_eq!(inputs[0].name, "checkout-generation");
    assert_eq!(inputs[0].digest, "sha256-g");
    let preimages = [
        transition_preimage("disable", "h", Lifecycle::Enabled, "s"),
        transition_preimage("disable", "h", Lifecycle::Disabled, "s"),
        transition_preimage("enable", "h", Lifecycle::Enabled, "s"),
        transition_preimage("disable", "i", Lifecycle::Enabled, "s"),
        transition_preimage("disable", "h", Lifecycle::Enabled, "t"),
    ];
    assert_eq!(preimages[0], b"malm-lifecycle-transition-v1\0disable\0h\0enabled\0s");
    for (i, left) in preimages.iter().enumerate() {
        for right in &preimages[i + 1..] {
            assert_ne!(left, right);
        }
    }
}

#[test]
fn records_are_reused_on_identical_inputs() {
    let core = vec![input("a", "1"), input("b", "2")];
    assert!(record_matches_core(&vec![input("b", "2"), input("a", "1")], &core));
    let derived = vec![input("a", "1"), input("b", "2"), input("asset:x", "9")];
    assert!(record_matches_core(&derived, &core));
    for recorded in [
        vec![input("a", "1")],
        vec![input("a", "1"), input("b", "3")],
        vec![input("a", "1"), input("b", "2"), input("c", "4")],
        vec![input("a", "1"), input("b", "2"), input("b", "2")],
    ] {
        assert!(!record_matches_core(&recorded, &core));
    }
    assert!(is_reusable("g", "g", &core, &core));
    assert!(!is_reusable("g", "h", &core, &core));
    assert!(name_is_derived("format-component:x"));
    assert!(!name_is_derived("overlay:x"));
}

#[test]
fn reuse_walks_a_bounded_list() {
    assert_eq!(start_reuse(), ReuseStep::List { limit: 2 });
    let ReuseStep::Load { index: 0, length: 2, limit: 2 } = reuse_after_list(2, Some(2)) else {
        panic!("the first plan is loaded");
    };
    assert_eq!(reuse_after_load(0, 2, 2, true), ReuseStep::Reuse { index: 0 });
    assert_eq!(reuse_after_load(0, 2, 2, false), ReuseStep::Load { index: 1, length: 2, limit: 2 });
    assert_eq!(reuse_after_load(1, 2, 2, false), ReuseStep::List { limit: 8 });
    assert_eq!(reuse_after_list(8, Some(8)), ReuseStep::Load { index: 2, length: 8, limit: 8 });
    assert_eq!(reuse_after_load(7, 8, 8, false), ReuseStep::Evaluate);
    assert_eq!(reuse_after_list(2, None), ReuseStep::List { limit: 8 });
    assert_eq!(reuse_after_list(8, None), ReuseStep::Evaluate);
}

fn finding(code: &str) -> Finding {
    Finding { code: text(code), message: text("m"), approval_required: true }
}

#[test]
fn reused_plans_say_so() {
    assert!(code_is_regenerated("replace-existing"));
    assert!(!code_is_regenerated("transform-info-x-0"));
    let findings = vec![finding("replace-existing"), finding("kept")];
    let reused = reused_findings("p", &findings, true);
    let codes: Vec<&str> = reused.iter().map(|found| found.code.as_str()).collect();
    assert_eq!(codes, ["kept", "AUTHORING-EVALUATION-REUSED", "AUTHORING-TRANSFORMS-CARRIED"]);
    assert_eq!(
        reused[1].message,
        "evaluation reused from plan p: every captured evaluation input is byte-identical"
    );
    assert_eq!(reused_findings("p", &findings, false).len(), 2);
    let operations = vec![
        Operation { authority: text("home"), relative_path: text("a"), action: Action::RemoveLeaf },
        Operation {
            authority: text("home"),
            relative_path: text("b"),
            action: Action::EnsureDirectory { mode: 0o755 },
        },
    ];
    assert!(has_destination(&operations, "home", "a"));
    assert!(!has_destination(&operations, "etc", "a"));
    let kept = reused_operations(operations);
    assert_eq!(kept.len(), 1);
    assert_eq!(kept[0].relative_path, "b");
}

#[test]
fn consent_refusals_lead_to_evaluation() {
    let refused = |reason| EngineError::PreparedStore { path: b"/p".to_vec(), reason };
    let consent = || {
        refused(PreparedStoreIssue::UnsafeTarget {
            detail: text("place requires the leaf to be absent"),
        })
    };
    let ancestor = refused(PreparedStoreIssue::MissingManagedAncestor {
        authority: text("home"),
        relative_path: text("a/b"),
        missing_prefix: text("a"),
    });
    assert!(is_consent_shape_refusal(&consent()));
    assert!(is_consent_shape_refusal(&ancestor));
    assert!(!is_consent_shape_refusal(&refused(PreparedStoreIssue::MissingPlan)));
    assert!(matches!(reuse_outcome(Ok(())), ReuseOutcome::Planned));
    assert!(matches!(reuse_outcome(Err(consent())), ReuseOutcome::Evaluate));
    assert!(matches!(
        reuse_outcome(Err(EngineError::ReadOnlyStore)),
        ReuseOutcome::Failed(StaticPrepareError::Store { source: EngineError::ReadOnlyStore })
    ));
    assert!(may_reuse(false));
    assert!(!may_reuse(true));
}

fn node(id: &str, content: &str, components: &[(&str, &str)]) -> LockedNode {
    LockedNode {
        node_id: text(id),
        content_digest: text(content),
        components: components
            .iter()
            .map(|(name, digest)| LockedComponent {
                name: text(name),
                digest: text(digest),
                execution_profile: text("profile"),
            })
            .collect(),
    }
}

fn node_id(digit: &str) -> String {
    format!("sha256-{}", digit.repeat(64))
}

#[test]
fn document_authorities_are_found() {
    let nodes = vec![node(&node_id("a"), "c0", &[]), node(&node_id("b"), "c1", &[])];
    let root = document_authority(&nodes[0], &node_id("a"));
    assert_eq!((root.label.as_str(), root.identity.as_str()), ("root", "c0"));
    let other = document_authority(&nodes[1], &node_id("a"));
    assert_eq!(other.label, format!("pack-{}", "b".repeat(58)));
    assert_eq!(pack_for_authority(&nodes, &node_id("a"), &other).unwrap(), 1);
    let unknown = DocumentAuthority { label: text("x"), identity: text("y") };
    assert!(matches!(
        pack_for_authority(&nodes, &node_id("a"), &unknown),
        Err(StaticPrepareError::UnknownDocumentAuthority { .. })
    ));
    let twice = vec![node(&node_id("b"), "c1", &[]), node(&node_id("b"), "c1", &[])];
    assert!(matches!(
        pack_for_authority(&twice, &node_id("a"), &other),
        Err(StaticPrepareError::AmbiguousDocumentAuthority { .. })
    ));
    let edges = vec![LockedEdge { alias: text("dep"), target_node_id: node_id("b") }];
    let resolved = resolve_edges(&nodes, &node_id("a"), &edges);
    assert_eq!(resolved[0].alias, "dep");
    assert!(resolved[0].authority.is_same(&other));
    let declared = vec![text("malm.kdl")];
    assert!(check_config_entry("n", &declared, "malm.kdl", true).is_ok());
    assert!(matches!(
        check_config_entry("n", &declared, "malm.kdl", false),
        Err(StaticPrepareError::MissingRootConfig)
    ));
    assert!(matches!(
        check_config_entry("n", &declared, "other.kdl", true),
        Err(StaticPrepareError::UndeclaredConfigDocument { .. })
    ));
}

#[test]
fn selections_are_told_apart() {
    let mut framed = Vec::new();
    append_identity_text(&mut framed, "ab");
    assert_eq!(framed, [0, 0, 0, 0, 0, 0, 0, 2, b'a', b'b']);
    let mut expected = b"malm-static-profile-v1\0".to_vec();
    expected.extend_from_slice(&framed);
    assert_eq!(SelectedName::Profile.selection_preimage("ab"), expected);
    assert_ne!(
        SelectedName::ConfigEntry.selection_preimage("ab"),
        SelectedName::TargetAuthority.selection_preimage("ab")
    );
    let selected = SelectedName::Profile.selection_input("work", "sha256-1");
    assert_eq!(selected.name, "static-profile:work");
    let inputs = vec![input("x", "0"), selected];
    assert_eq!(deployed_profile(true, &inputs).unwrap(), "work");
    assert!(deployed_profile(false, &inputs).is_none());
    assert_eq!(choose_profile(Some(text("a")), Some(text("b"))).unwrap(), "a");
    assert_eq!(choose_profile(None, Some(text("b"))).unwrap(), "b");
    assert!(choose_profile(None, None).is_none());
}

fn document(path: &str) -> DocumentId {
    DocumentId { label: text("root"), identity: text("c0"), path: text(path) }
}

#[test]
fn documents_are_walked_once_in_queue_order() {
    let walk = DocumentWalk::start(document("a"));
    assert_eq!(walk.next().unwrap().path, "a");
    assert_eq!(walk.missing("a").message(), "root pack has no rich malm.kdl");
    let walk = walk.supply(text("d-a"), vec![document("b"), document("a"), document("c")]);
    assert_eq!(walk.next().unwrap().path, "b");
    assert_eq!(
        walk.missing("b").message(),
        "captured config document b is absent from its pack"
    );
    let walk = walk.supply(text("d-b"), vec![document("c")]);
    let walk = walk.supply(text("d-c"), Vec::new());
    assert!(walk.next().is_none());
    let found: Vec<String> = walk
        .into_documents()
        .iter()
        .map(|captured| format!("{}={}", captured.id.path, captured.digest))
        .collect();
    assert_eq!(found, ["a=d-a", "b=d-b", "c=d-c"]);
    assert_ne!(document("a").identity_preimage(), document("b").identity_preimage());
    assert!(document("a").is_before(&document("b")));
    assert!(document("a").is_same(&document("a")));
}

#[test]
fn evaluations_list_their_inputs() {
    let nodes = vec![node("n", "c0", &[("fmt", "sha256-f")])];
    assert_eq!(
        names(&component_profile_inputs(&nodes)),
        ["locked-component-profile:n:fmt=profile"]
    );
    let packs = vec![PackContent { node_id: text("n"), content_digest: text("c0") }];
    let documents =
        vec![IdentifiedDocument { digest: text("b"), identity_digest: text("i") }];
    assert_eq!(
        names(&evaluation_inputs("g", &packs, &nodes, "p", &documents)),
        [
            "locked-graph=g",
            "pack:n=c0",
            "locked-component-profile:n:fmt=profile",
            "locked-component-profiles=p",
            "config-document:0:bytes=b",
            "config-document:0:identity=i",
        ]
    );
    assert_eq!(
        names(&authoring_inputs(
            vec![input("selected", "0")],
            "work",
            "w",
            "g",
            &packs[0],
            &nodes,
            "p",
            "e",
            vec![input("overlay:x:bytes", "o")],
        )),
        [
            "selected=0",
            "static-profile:work=w",
            "locked-graph=g",
            "pack:n=c0",
            "locked-component-profile:n:fmt=profile",
            "locked-component-profiles=p",
            "authoring-evaluator=e",
            "overlay:x:bytes=o",
        ]
    );
    assert_eq!(evaluator_preimage(12), b"malm-authoring-evaluator-v1\x0012");
    assert_eq!(decompressor_preimage(), b"malm-authoring-asset-decompressor-v1\0xz/1");
    assert!(check_single_pack(1).is_ok());
    assert!(check_single_pack(2).is_err());
}

#[test]
fn profile_tables_do_not_depend_on_order() {
    let forward = vec![input("a", "1"), input("b", "2")];
    let backward = vec![input("b", "2"), input("a", "1")];
    assert_eq!(profiles_preimage(&forward), profiles_preimage(&backward));
    let other = vec![input("a", "2"), input("b", "1")];
    assert_ne!(profiles_preimage(&forward), profiles_preimage(&other));
    assert_eq!(profiles_preimage(&Vec::new()), b"malm-locked-component-profiles-v1\0");
    assert_eq!(
        profiles_preimage(&vec![input("a", "1"), input("a", "2")]),
        profiles_preimage(&vec![input("a", "2")])
    );
}

fn diagnostic(severity: Severity, primary: Option<Location>) -> Diagnostic {
    Diagnostic { severity, code: text("c"), message: text("m"), primary, notes: vec![text("n")] }
}

#[test]
fn diagnostics_become_findings_and_records() {
    let mut findings = Vec::new();
    let list = vec![
        diagnostic(Severity::Warning, None),
        diagnostic(Severity::Info, None),
        diagnostic(Severity::Error, None),
    ];
    append_transform_findings(&mut findings, "out", &list);
    let told: Vec<(&str, bool)> = findings
        .iter()
        .map(|found: &Finding| (found.code.as_str(), found.approval_required))
        .collect();
    assert_eq!(
        told,
        [
            ("transform-warning-out-0", true),
            ("transform-info-out-1", false),
            ("transform-error-out-2", true),
        ]
    );
    let documents = vec![SourceDocument { id: document("a"), byte_len: 40 }];
    let place = |path| Some(Location::Source { document: document(path), start: 1, end: 2 });
    let recorded =
        record_diagnostic(&diagnostic(Severity::Warning, place("a")), &documents).unwrap();
    assert!(recorded.warns);
    assert!(format!("{:?}", recorded.primary).contains("byte_len: 40"));
    let unknown = record_diagnostic(&diagnostic(Severity::Info, place("b")), &documents);
    assert_eq!(
        unknown.unwrap_err().message(),
        "invalid format-transform contract value: transform diagnostic references an unknown source document"
    );
    let failed = record_diagnostic(&diagnostic(Severity::Error, None), &documents);
    assert_eq!(
        failed.unwrap_err().message(),
        "invalid format-transform contract value: successful transform contains an error diagnostic"
    );
}

fn provenance(request: &str, response: &str) -> TransformProvenance {
    TransformProvenance {
        name: text("t"),
        implementation: Implementation::BuiltIn { name: text("b") },
        request_digest: text(request),
        document_digest: text("d"),
        resources: Vec::new(),
        response_digest: text(response),
        diagnostics: Vec::new(),
    }
}

#[test]
fn requests_are_recorded_once() {
    let mut transforms = Vec::new();
    append_transform_provenance(&mut transforms, provenance("r", "x")).unwrap();
    append_transform_provenance(&mut transforms, provenance("r", "x")).unwrap();
    append_transform_provenance(&mut transforms, provenance("s", "x")).unwrap();
    assert_eq!(transforms.len(), 2);
    let conflict = append_transform_provenance(&mut transforms, provenance("r", "y"));
    assert_eq!(
        conflict.unwrap_err().message(),
        "invalid format-transform contract value: identical transform request produced conflicting provenance"
    );
    assert_eq!(transforms.len(), 2);
    for (error, words) in [
        (
            TransformInvocationError::InvalidRequest { detail: text("d") },
            "invalid format-transform contract value: d",
        ),
        (
            TransformInvocationError::InvalidResponse { detail: text("d") },
            "invalid format-transform contract value: d",
        ),
        (
            TransformInvocationError::TransformFailed { kind: text("Semantic"), message: text("m") },
            "format transform returned Semantic: m",
        ),
        (
            TransformInvocationError::Infrastructure { reason: text("r") },
            "format-component infrastructure failed: r",
        ),
    ] {
        assert_eq!(map_transform_error(error).message(), words);
    }
}

fn reference(path: &str) -> FileReference {
    FileReference {
        path: text(path),
        kind: PackResourceKind::Asset,
        byte_len: 3,
        raw_digest: format!("raw-{path}"),
        object_digest: format!("object-{path}"),
    }
}

fn found(path: &str) -> FoundFile {
    FoundFile {
        byte_len: 3,
        raw_digest: format!("raw-{path}"),
        object_digest: Ok(format!("object-{path}")),
    }
}

#[test]
fn only_reviewed_files_pass() {
    let check = |declared, file: Option<FoundFile>| {
        check_pack_file("n", &reference("a"), declared, &file).map_err(|error| error.message())
    };
    assert!(check(true, Some(found("a"))).is_ok());
    assert_eq!(
        check(false, Some(found("a"))).unwrap_err(),
        "locked pack n does not declare a as a asset"
    );
    assert_eq!(check(true, None).unwrap_err(), "locked pack n lacks declared file a");
    assert_eq!(
        check(true, Some(FoundFile { byte_len: 4, ..found("a") })).unwrap_err(),
        "locked pack n file a has 4 bytes, config reviewed 3"
    );
    assert_eq!(
        check(true, Some(FoundFile { raw_digest: text("z"), ..found("a") })).unwrap_err(),
        "locked pack n file a raw digest is z, config reviewed raw-a"
    );
    assert_eq!(
        check(true, Some(FoundFile { object_digest: Ok(text("z")), ..found("a") })).unwrap_err(),
        "locked pack n file a canonical file digest is z, config reviewed object-a"
    );
    assert_eq!(
        check(true, Some(FoundFile { object_digest: Err(text("d")), ..found("a") })).unwrap_err(),
        "invalid rich config: d"
    );
}

fn decoder(name: &str, version: u16) -> ArchiveDecoder {
    ArchiveDecoder { name: text(name), version }
}

#[test]
fn decoders_are_told_apart() {
    assert!(validate_archive_decoder(&decoder("tar", 1), &decoder("tar", 1)).is_ok());
    assert!(validate_archive_decoder(&decoder("tar", 2), &decoder("tar", 1)).is_err());
    assert!(validate_archive_decoder(&decoder("zip", 1), &decoder("tar", 1)).is_err());
    assert_eq!(
        archive_decoder_preimage(&decoder("tar", 258)),
        b"malm-archive-decoder-identity\0tar\x01\x02"
    );
    let nodes = vec![node("n", "c0", &[("a", "x"), ("b", "y")]), node("m", "c1", &[("c", "y")])];
    assert_eq!(resolve_transform_component(&nodes, "x").unwrap(), (0, 0));
    assert!(matches!(
        resolve_transform_component(&nodes, "y"),
        Err(StaticPrepareError::AmbiguousFormatComponent { .. })
    ));
    assert!(matches!(
        resolve_transform_component(&nodes, "z"),
        Err(StaticPrepareError::UnknownFormatComponent { .. })
    ));
}

fn empty_plan() -> RichPlan {
    RichPlan {
        inputs: Vec::new(),
        artifacts: Vec::new(),
        findings: Vec::new(),
        transforms: Vec::new(),
        operations: Vec::new(),
    }
}

fn reply(output: &[u8]) -> TransformReply {
    TransformReply {
        component: Some(ComponentUse { node_id: text("n"), name: text("fmt"), digest: text("f") }),
        output: output.to_vec(),
        media_type: text("text/plain"),
        diagnostics: vec![diagnostic(Severity::Info, None)],
        name: text("t"),
        implementation: Implementation::BuiltIn { name: text("b") },
        request_digest: text("r"),
        document_digest: text("d"),
        resources: Vec::new(),
        response_digest: text("s"),
    }
}

#[test]
fn rich_plans_start_from_captured_inputs() {
    let plan = start_plan("g", "g", empty_plan(), Ok(text("ir")), "work", "w").unwrap();
    assert_eq!(names(&plan.inputs), ["rich-config-ir=ir", "static-profile:work=w"]);
    assert!(matches!(
        start_plan("g", "h", empty_plan(), Ok(text("ir")), "work", "w"),
        Err(StaticPrepareError::GraphDigestMismatch { .. })
    ));
    let mut full = empty_plan();
    full.transforms.push(provenance("r", "x"));
    assert!(start_plan("g", "g", full, Ok(text("ir")), "work", "w").is_err());
    assert!(start_plan("g", "g", empty_plan(), Err(text("d")), "work", "w").is_err());
}

#[test]
fn rich_outputs_are_put_at_their_destinations() {
    let output = |name: &str, kind| Output {
        name: text(name),
        destination: format!("to/{name}"),
        kind,
    };
    let outputs = vec![
        output("file", OutputKind::RegularFile { source: reference("a"), executable: true }),
        output("link", OutputKind::Symlink { target: text("x") }),
        output("tree", OutputKind::CanonicalTree { tree: text("sha256-t") }),
        output(
            "archive",
            OutputKind::DecodedArchive {
                payload: reference("p"),
                decoder: decoder("tar", 1),
                expected_tree: text("sha256-e"),
            },
        ),
        output(
            "made",
            OutputKind::TransformedFile {
                resources: vec![ResourceFile { name: text("in"), source: reference("r") }],
                executable: false,
            },
        ),
    ];
    let mut planner = RichPlanner::new(text("home"), decoder("tar", 1), outputs, empty_plan());
    let mut asked = Vec::new();
    loop {
        let work = planner.next();
        asked.push(format!("{work:?}"));
        planner = match work {
            RichWork::File { .. } => planner.supply_file(b"abc".to_vec()).unwrap(),
            RichWork::Symlink { .. } => planner.supply_symlink(text("sha256-l")),
            RichWork::Tree { .. } => planner.supply_tree(),
            RichWork::Archive { .. } => planner.supply_archive(text("sha256-d")),
            RichWork::Transform { .. } => {
                planner.supply_transform(reply(b"made"), &Vec::new()).unwrap()
            }
            RichWork::Finished => break,
        };
    }
    assert_eq!(
        asked,
        [
            "File { output: 0, file: 0 }",
            "Symlink { output: 1 }",
            "Tree { output: 2 }",
            "File { output: 3, file: 0 }",
            "Archive { output: 3 }",
            "File { output: 4, file: 0 }",
            "Transform { output: 4 }",
            "Finished",
        ]
    );
    let plan = planner.into_plan();
    let destinations: Vec<&str> =
        plan.operations.iter().map(|operation| operation.relative_path.as_str()).collect();
    assert_eq!(destinations, ["to/file", "to/link", "to/tree", "to/archive", "to/made"]);
    assert!(matches!(&plan.operations[0].action, Action::PlaceFile { mode: 0o755, .. }));
    assert!(matches!(&plan.operations[4].action, Action::PlaceFile { mode: 0o644, .. }));
    assert!(format!("{:?}", plan.operations[3].action).contains("tar/v1"));
    assert_eq!(plan.artifacts.len(), 2);
    assert_eq!(plan.artifacts[1].bytes, b"made");
    assert_eq!(plan.transforms.len(), 1);
    assert_eq!(plan.findings[0].code, "transform-info-made-0");
}

#[test]
fn unsupported_decoders_stop_rich_planning() {
    let outputs = vec![Output {
        name: text("archive"),
        destination: text("to"),
        kind: OutputKind::DecodedArchive {
            payload: reference("p"),
            decoder: decoder("zip", 1),
            expected_tree: text("sha256-e"),
        },
    }];
    let planner = RichPlanner::new(text("home"), decoder("tar", 1), outputs, empty_plan());
    assert!(matches!(
        planner.supply_file(b"abc".to_vec()),
        Err(StaticPrepareError::UnsupportedArchiveDecoder { .. })
    ));
}

fn authoring_output(destination: &str, content: OutputContent, transforms: &[&str]) -> AuthoringOutput {
    AuthoringOutput {
        destination: text(destination),
        content,
        transforms: transforms.iter().map(|name| text(name)).collect(),
        executable: false,
        replace: false,
    }
}

#[test]
fn assets_that_would_overflow_the_decoder_end_the_plan() {
    let asset = AssetEntry {
        name: text("icons"),
        path: Some(text("icons.tar.xz")),
        sha256: None,
        format: text("tar-xz"),
        dst: text("~/.icons"),
    };
    let planner = AuthoringPlanner::new(
        text("home"),
        text("~/.config"),
        decoder("tar", 1),
        Vec::new(),
        vec![asset],
        Vec::new(),
        empty_plan(),
    );
    let (planner, work) = planner.next().unwrap();
    assert!(matches!(work, AuthoringWork::Asset { asset: 0 }));
    assert!(planner
        .refuse_asset()
        .message()
        .starts_with("invalid rich config: asset `icons`: xz decompression failed: "));
}

#[test]
fn authoring_outputs_assets_and_symlinks_are_planned_in_order() {
    let outputs = vec![
        authoring_output("~/plain", OutputContent::Bytes(b"plain".to_vec()), &[]),
        authoring_output(
            "made",
            OutputContent::Component { renderer: text("render") },
            &["minify"],
        ),
    ];
    let assets = vec![AssetEntry {
        name: text("icons"),
        path: Some(text("icons.tar")),
        sha256: None,
        format: text("tar"),
        dst: text("~/.icons"),
    }];
    let symlinks = vec![
        AuthoringSymlink { destination: text("~/link"), target: text("~/dir/there") },
        AuthoringSymlink { destination: text("~/sub/up"), target: text("~/elsewhere") },
    ];
    let mut planner = AuthoringPlanner::new(
        text("home"),
        text("~/.config"),
        decoder("tar", 1),
        outputs,
        assets,
        symlinks,
        empty_plan(),
    );
    let mut asked = Vec::new();
    loop {
        let (next, work) = planner.next().unwrap();
        asked.push(format!("{work:?}"));
        planner = match work {
            AuthoringWork::Render { .. } => {
                next.supply_component(reply(b"rendered"), &Vec::new()).unwrap()
            }
            AuthoringWork::Transform { .. } => {
                assert_eq!(next.content().unwrap(), b"rendered");
                next.supply_component(reply(b"rendered"), &Vec::new()).unwrap()
            }
            AuthoringWork::Asset { .. } => {
                next.supply_asset("x", text("sha256-p"), text("sha256-t")).unwrap()
            }
            AuthoringWork::Symlink { .. } => next.supply_symlink(text("sha256-l")).unwrap(),
            AuthoringWork::Again => next,
            AuthoringWork::Finished => {
                planner = next;
                break;
            }
        };
    }
    asked.retain(|work| work != "Again");
    assert_eq!(
        asked,
        [
            "Render { output: 1 }",
            "Transform { output: 1, stage: 0 }",
            "Asset { asset: 0 }",
            "Symlink { symlink: 0, target: \"dir/there\" }",
            "Finished",
        ]
    );
    let plan = planner.into_plan();
    let destinations: Vec<&str> =
        plan.operations.iter().map(|operation| operation.relative_path.as_str()).collect();
    assert_eq!(destinations, ["plain", ".config/made", ".icons/icons", "link"]);
    assert!(plan.inputs.iter().any(|found| found.name == "asset:icons:tree"));
    assert!(plan.inputs.iter().any(|found| found.name == "format-component:n:fmt"));
    let codes: Vec<&str> = plan.findings.iter().map(|found| found.code.as_str()).collect();
    assert!(codes.contains(&"transform-info-authoring-output-0001-renderer-0"), "{codes:?}");
    assert!(codes.contains(&"transform-info-authoring-output-0001-transform-00-0"), "{codes:?}");
}

#[test]
fn includes_and_roles_are_quoted() {
    let mut findings = Vec::new();
    add_include_findings(&mut findings, &vec![text("~/a\"b.kdl")]);
    assert_eq!(
        findings[0].message,
        "external include \"~/a\\\"b.kdl\" was not read; machine-local values require an explicit overlay"
    );
    assert!(!findings[0].approval_required);
    assert_eq!(
        ComponentRole::Renderer.invalid_name("o", "d").message(),
        "invalid rich config: output \"o\" declares invalid renderer component name: d"
    );
    assert_eq!(
        ComponentRole::Transform.not_bundled("o", "c").message(),
        "invalid rich config: output \"o\" declares transform component `c`, which the root pack does not bundle"
    );
}
