//! Capturing local packs, acquiring graphs, and writing locks.

use std::fmt::Debug;

use malm_engine::capture::{
    after_classification, check_entry, check_names_unchanged, check_opened_file,
    check_opened_source, check_read_file, check_resolved_component, check_source_component,
    check_walked_directory,
    ensure_source_link, map_entry_open_error, map_root_open_error, map_tree_error,
    normalize_source_root, reject_lexical_state_overlap, reject_physical_state_overlap,
    require_captured_digest, resolved_locator_descriptor_count, sort_names, validate_source_file,
    visit_name, CaptureBudget, EntryStep, NameStep, TreeProblem,
};
use malm_engine::capture_steps::{start_capture, CaptureStep};
use malm_engine::deployment::{
    choose_way, AcquisitionWay, GraphAcquisitionInputs, LockOperationOutcome,
    LockResolutionInputs, PackScratch, PlanIndexEntryV1, SourceScratch,
    StaticDeploymentPrepareRequestV1, StaticGraphAcquisitionV1,
};
use malm_engine::error::{
    EngineError, GitSource, GraphAcquisitionError, LockFileIssue, LockOperationError,
    PackCaptureIssue,
};
use malm_engine::git::acquire::{
    cached_or_missing, map_scratch_error, require_digest, require_empty_scratch, validate_scratch,
};
use malm_engine::git::acquire_steps::{start_acquisition, AcquireStep};
use malm_engine::git::config::GitAcquisitionConfig;
use malm_engine::git::issue::GitAcquisitionIssue;
use malm_engine::git::reader::PathClass;
use malm_engine::graph_acquisition::{
    is_first, missing_scratch, validate_local_grants, validate_mixed_grants, GraphNode,
};
use malm_engine::graph_sources::{text_before, LockSource};
use malm_engine::limits::{
    MAX_CAPTURE_ENTRIES, MAX_GRAPH_OBJECT_BYTES, MAX_LOCK_BYTES, MAX_PACK_FILE_BYTES,
    MAX_PACK_TREE_BYTES, MAX_PACK_TREE_ENTRIES,
};
use malm_engine::lock_file::{
    bound_lock_stat, check_encoded_length, check_lock_length, check_observed_lock,
    check_opened_lock, check_read_staging, check_staging_content, map_lock_open_error,
    require_absent, revalidate_lock, start_lock_operation, validate_lock_stat, LockRole, LockStep,
};
use malm_engine::lock_graph::{
    charge_descriptors, pinned_descriptor_limit, Dependency, DiscoveredNode, LockResolver,
    ResolveRequest,
};
use malm_engine::objects::{ObjectFlavor, ObjectTarget};
use malm_engine::error::CanonicalObjectIssue;
use malm_engine::prepare_error::StaticDeploymentPrepareError;
use malm_engine::stat::{FileStat, HostErrorKind, HostFailure};
use malm_engine::store_steps::Progress;
use malm_engine::store_types::{LockFilePublication, PackObjectPublication, StoreAccess};

const ROOT: &[u8] = b"/work/pack";

fn regular(size: i64) -> FileStat {
    FileStat {
        dev: 1,
        ino: 2,
        mode: 0o100644,
        uid: 7,
        gid: 0,
        nlink: 1,
        size,
        mtime: 10,
        mtime_nsec: 11,
        ctime: 12,
        ctime_nsec: 13,
    }
}

fn directory() -> FileStat {
    FileStat { mode: 0o040755, nlink: 2, ..regular(0) }
}

fn symlink() -> FileStat {
    FileStat { mode: 0o120777, ..regular(3) }
}

fn socket() -> FileStat {
    FileStat { mode: 0o140755, ..regular(0) }
}

fn failure(kind: HostErrorKind) -> HostFailure {
    HostFailure { kind, detail: "host detail".to_owned() }
}

fn reason<T: Debug>(result: Result<T, EngineError>) -> String {
    match result {
        Err(EngineError::PackCapture { reason, .. }) => format!("{reason:?}"),
        other => format!("{other:?}"),
    }
}

fn issue(error: EngineError) -> String {
    reason::<()>(Err(error))
}

#[test]
fn source_roots_are_absolute_and_apart_from_state() {
    assert_eq!(normalize_source_root(b"/work/./a/../pack").unwrap(), b"/work/pack");
    assert_eq!(reason(normalize_source_root(b"pack")), "SourceRootMustBeAbsolute");
    assert!(reject_lexical_state_overlap(ROOT, b"/state").is_ok());
    for state in [&b"/work/pack"[..], b"/work", b"/work/pack/below", b"/"] {
        assert_eq!(reason(reject_lexical_state_overlap(ROOT, state)), "ProtectedStateOverlap");
    }
    assert!(reject_lexical_state_overlap(ROOT, b"/work/packs").is_ok());
    assert!(reject_physical_state_overlap(false, false, false, false, ROOT).is_ok());
    for at in 0..4 {
        let found = reject_physical_state_overlap(at == 0, at == 1, at == 2, at == 3, ROOT);
        assert_eq!(reason(found), "ProtectedStateOverlap");
    }
}

#[test]
fn source_components_are_directories() {
    assert!(check_source_component(Ok(directory()), ROOT, ROOT).is_ok());
    for (observed, words) in [
        (Ok(symlink()), "SymbolicLink"),
        (Ok(regular(1)), "SourceRootNotDirectory"),
        (Err(failure(HostErrorKind::NotFound)), "SourceRootMissing"),
        (Err(failure(HostErrorKind::NotDirectory)), "SourceRootNotDirectory"),
    ] {
        assert_eq!(reason(check_source_component(observed, ROOT, ROOT)), words);
    }
    assert!(matches!(
        check_source_component(Err(failure(HostErrorKind::Other)), ROOT, ROOT),
        Err(EngineError::Io { .. })
    ));
    assert_eq!(
        issue(map_root_open_error(ROOT, ROOT, failure(HostErrorKind::Loop))),
        "SymbolicLink"
    );
    assert!(matches!(
        map_root_open_error(ROOT, ROOT, failure(HostErrorKind::Other)),
        EngineError::Io { .. }
    ));
    let moved = FileStat { ino: 9, ..directory() };
    assert!(check_opened_source(&directory(), Ok(directory()), "open", ROOT, ROOT).is_ok());
    let opened = check_opened_source(&directory(), Ok(moved), "open", ROOT, ROOT);
    assert_eq!(reason(opened), "ObservationChanged");
    assert!(ensure_source_link(Ok(directory()), Ok(directory()), ROOT).is_ok());
    assert_eq!(
        reason(ensure_source_link(Ok(moved), Ok(directory()), ROOT)),
        "ObservationChanged"
    );
}

#[test]
fn locators_lead_through_directories() {
    assert!(check_resolved_component(Ok(directory()), ROOT).is_ok());
    assert_eq!(reason(check_resolved_component(Ok(symlink()), ROOT)), "SymbolicLink");
    assert_eq!(reason(check_resolved_component(Ok(socket()), ROOT)), "SourceRootNotDirectory");
    let gone = failure(HostErrorKind::NotFound);
    assert_eq!(reason(check_resolved_component(Err(gone), ROOT)), "SourceRootMissing");
}

#[test]
fn names_are_passed_over_or_classified() {
    for name in [&b".git"[..], b"malm.lock", b".malm-lock.tmp"] {
        assert!(matches!(visit_name(name, "a"), NameStep::Skip));
    }
    assert!(matches!(visit_name(&[0xff], ""), NameStep::NotText));
    assert!(matches!(visit_name(b"x", ""), NameStep::Classify(path) if path == "x"));
    assert!(matches!(
        visit_name("é".as_bytes(), "a/b"),
        NameStep::Classify(path) if path == "a/b/é"
    ));
    let content = |covered| {
        after_classification(PathClass::Content, covered, ROOT, ROOT).unwrap()
    };
    assert!(content(None));
    assert!(content(Some(true)));
    assert!(!content(Some(false)));
    assert!(!after_classification(PathClass::Reserved, None, ROOT, ROOT).unwrap());
    let invalid = PathClass::Invalid("d".to_owned());
    assert_eq!(
        reason(after_classification(invalid, None, ROOT, ROOT)),
        "InvalidPath { detail: \"d\" }"
    );
}

#[test]
fn entries_are_directories_or_single_files() {
    assert_eq!(check_entry(Ok(directory()), ROOT, ROOT).unwrap(), EntryStep::Directory);
    assert_eq!(check_entry(Ok(regular(1)), ROOT, ROOT).unwrap(), EntryStep::File);
    for (observed, words) in [
        (Ok(symlink()), "SymbolicLink"),
        (Ok(socket()), "UnsupportedFileType"),
        (Err(failure(HostErrorKind::NotFound)), "ObservationChanged"),
    ] {
        assert_eq!(reason(check_entry(observed, ROOT, ROOT)), words);
    }
    let crossed = map_entry_open_error(ROOT, ROOT, failure(HostErrorKind::CrossDevice));
    assert_eq!(issue(crossed), "MountBoundary");
    assert_eq!(validate_source_file(ROOT, ROOT, &regular(9)).unwrap(), 9);
    for (stat, words) in [
        (directory(), "ObservationChanged".to_owned()),
        (
            FileStat { nlink: 2, ..regular(9) },
            "UnexpectedLinks { expected: 1, actual: 2 }".to_owned(),
        ),
        (regular(-1), "ObservationChanged".to_owned()),
        (
            regular(MAX_PACK_FILE_BYTES as i64 + 1),
            format!(
                "FileTooLarge {{ limit: {MAX_PACK_FILE_BYTES}, actual: {} }}",
                MAX_PACK_FILE_BYTES + 1
            ),
        ),
    ] {
        assert_eq!(reason(validate_source_file(ROOT, ROOT, &stat)), words);
    }
    let changed = FileStat { mtime: 99, ..regular(9) };
    assert!(check_opened_file(&regular(9), &regular(9), ROOT, ROOT).is_ok());
    assert!(check_opened_file(&regular(9), &changed, ROOT, ROOT).is_err());
    let read = |length, last: &FileStat| {
        check_read_file(length, &regular(9), last, &regular(9), ROOT, ROOT)
    };
    assert!(read(9, &regular(9)).is_ok());
    assert!(read(8, &regular(9)).is_err());
    assert!(read(9, &changed).is_err());
    assert!(check_walked_directory(&directory(), &directory(), &directory(), ROOT, ROOT).is_ok());
    let moved = FileStat { mtime: 99, ..directory() };
    assert!(check_walked_directory(&directory(), &moved, &directory(), ROOT, ROOT).is_err());
}

#[test]
fn budgets_admit_what_fits() {
    let mut budget = CaptureBudget::new();
    budget.charge_names(MAX_CAPTURE_ENTRIES, ROOT, ROOT).unwrap();
    let over = budget.charge_names(1, ROOT, ROOT);
    assert_eq!(reason(over), format!("TraversalLimitExceeded {{ limit: {MAX_CAPTURE_ENTRIES} }}"));
    let mut budget = CaptureBudget::new();
    assert_eq!(budget.admit_file(&regular(5), ROOT, ROOT).unwrap(), 5);
    budget.charge_file(5);
    assert_eq!((budget.files, budget.total_bytes), (1, 5));
    budget.total_bytes = MAX_PACK_TREE_BYTES - 4;
    assert_eq!(
        reason(budget.admit_file(&regular(5), ROOT, ROOT)),
        format!("TreeTooLarge {{ limit: {MAX_PACK_TREE_BYTES}, actual: {} }}", MAX_PACK_TREE_BYTES + 1)
    );
    assert_eq!(budget.admit_file(&regular(4), ROOT, ROOT).unwrap(), 4);
    budget.files = MAX_PACK_TREE_ENTRIES;
    assert_eq!(
        reason(budget.admit_file(&regular(0), ROOT, ROOT)),
        format!(
            "TooManyFiles {{ limit: {MAX_PACK_TREE_ENTRIES}, actual: {} }}",
            MAX_PACK_TREE_ENTRIES + 1
        )
    );
}

#[test]
fn directory_names_are_sorted_and_stable() {
    let names = vec![b"b".to_vec(), b"a/".to_vec(), b"a".to_vec(), vec![0xff]];
    let sorted = sort_names(&names);
    assert_eq!(sorted, [b"a".to_vec(), b"a/".to_vec(), b"b".to_vec(), vec![0xff]]);
    assert!(check_names_unchanged(&sorted, &sorted, ROOT, ROOT).is_ok());
    assert!(check_names_unchanged(&sorted, &names, ROOT, ROOT).is_err());
    assert!(check_names_unchanged(&sorted, &sorted[..3].to_vec(), ROOT, ROOT).is_err());
    assert!(check_names_unchanged(&sorted[..3].to_vec(), &sorted, ROOT, ROOT).is_err());
}

#[test]
fn locators_count_their_descriptors() {
    assert_eq!(resolved_locator_descriptor_count(4, b"."), 4);
    assert_eq!(resolved_locator_descriptor_count(4, b"../x"), 4);
    assert_eq!(resolved_locator_descriptor_count(4, b"x/y"), 6);
}

#[test]
fn pack_tree_problems_are_placed() {
    for (problem, path, words) in [
        (TreeProblem::MissingManifest, "/work/pack/malm-pack.kdl", "MissingManifest"),
        (
            TreeProblem::TooManyEntries { limit: 1, actual: 2 },
            "/work/pack",
            "TooManyFiles { limit: 1, actual: 2 }",
        ),
        (
            TreeProblem::FileTooLarge { path: "a".to_owned(), limit: 1, actual: 2 },
            "/work/pack/a",
            "FileTooLarge { limit: 1, actual: 2 }",
        ),
        (
            TreeProblem::TreeTooLarge { limit: 1, actual: 2 },
            "/work/pack",
            "TreeTooLarge { limit: 1, actual: 2 }",
        ),
        (
            TreeProblem::DuplicatePath { path: "a".to_owned(), shown: "a".to_owned() },
            "/work/pack/a",
            "InvalidPack { detail: \"duplicate pack path a\" }",
        ),
        (
            TreeProblem::Invalid { detail: "d".to_owned() },
            "/work/pack/malm-pack.kdl",
            "InvalidPack { detail: \"d\" }",
        ),
    ] {
        let EngineError::PackCapture { root, path: found, reason } = map_tree_error(ROOT, problem)
        else {
            panic!("a capture error was due");
        };
        assert_eq!(root, ROOT);
        assert_eq!(found, path.as_bytes());
        assert_eq!(format!("{reason:?}"), words);
    }
    assert!(require_captured_digest(None, "a", ROOT).is_ok());
    assert!(require_captured_digest(Some("a"), "a", ROOT).is_ok());
    assert!(matches!(
        require_captured_digest(Some("a"), "b", ROOT),
        Err(EngineError::PackCapture { reason: PackCaptureIssue::DigestMismatch { .. }, .. })
    ));
}

fn follow<S: Debug, D: Debug, E: Debug>(
    start: Progress<S, D, E>,
    advance: impl Fn(S, bool) -> Progress<S, D, E>,
    answer: impl Fn(&str) -> bool,
) -> (Vec<String>, Result<D, E>) {
    let mut steps = Vec::new();
    let mut progress = start;
    loop {
        match progress {
            Progress::Next(step) => {
                let name = format!("{step:?}");
                let yes = answer(&name);
                steps.push(name);
                progress = advance(step, yes);
            }
            Progress::Done(result) => return (steps, Ok(result)),
            Progress::Failed(error) => return (steps, Err(error)),
        }
    }
}

#[test]
fn local_packs_are_published_after_the_last_look() {
    let advance = |step: CaptureStep, yes| step.after(Ok(yes));
    let (steps, published) = follow(start_capture(StoreAccess::ReadWrite), advance, |_| true);
    assert_eq!(
        steps,
        [
            "NormalizeSource", "RejectLexicalOverlap", "PinSource", "OpenStore", "RevalidateStore",
            "RejectOverlap", "RevalidateSource", "Walk", "RevalidateSourceAfterWalk",
            "RevalidateStoreAfterWalk", "VerifyPack", "CheckDigest", "RevalidateSourceLast",
            "RevalidateStoreLast", "Publish",
        ]
    );
    assert_eq!(published.unwrap(), PackObjectPublication::Published);
    assert!(matches!(
        start_capture(StoreAccess::ReadOnly),
        Progress::Failed(EngineError::ReadOnlyStore)
    ));
}

#[test]
fn exact_git_packs_are_acquired_in_order() {
    let advance = |step: AcquireStep, yes| step.after(Ok(yes), StoreAccess::ReadWrite);
    let (steps, reused) =
        follow(start_acquisition(true, StoreAccess::ReadOnly), advance, |_| true);
    assert_eq!(steps, ["LookUpCached"]);
    assert_eq!(reused.unwrap(), PackObjectPublication::Reused);
    let (steps, published) = follow(
        start_acquisition(true, StoreAccess::ReadWrite),
        advance,
        |step| step != "LookUpCached",
    );
    assert_eq!(
        steps,
        [
            "LookUpCached", "NormalizeScratch", "OpenStore", "RevalidateStore", "PinScratch",
            "RejectOverlap", "ValidateScratch", "RevalidateStoreBeforeGit", "Initialize",
            "RevalidateAfterInitialize", "Fetch", "RevalidateAfterFetch", "ReadPack",
            "CheckDigest", "VerifyPack", "RevalidateScratchLast", "RevalidateStoreLast", "Publish",
        ]
    );
    assert_eq!(published.unwrap(), PackObjectPublication::Published);
    assert!(matches!(
        AcquireStep::LookUpCached.after(Ok(false), StoreAccess::ReadOnly),
        Progress::Failed(EngineError::ReadOnlyStore)
    ));
    assert!(matches!(
        start_acquisition(false, StoreAccess::ReadOnly),
        Progress::Failed(EngineError::ReadOnlyStore)
    ));
}

fn git(url: &str) -> GitSource {
    GitSource { url: url.to_owned(), commit: "sha1-c".to_owned(), subdir: ".".to_owned() }
}

fn git_reason<T: Debug>(result: Result<T, EngineError>) -> String {
    match result {
        Err(EngineError::GitAcquisition { reason, .. }) => format!("{reason:?}"),
        other => format!("{other:?}"),
    }
}

#[test]
fn scratch_directories_are_private_and_empty() {
    let private = FileStat { mode: 0o040700, ..directory() };
    let check = |stat| git_reason(validate_scratch(Ok(stat), &git("u"), b"/s", 7));
    assert_eq!(check(private), "Ok(())");
    assert_eq!(
        check(FileStat { uid: 8, ..private }),
        "ScratchRootWrongOwner { expected_uid: 7, actual_uid: 8 }"
    );
    assert_eq!(
        check(directory()),
        "ScratchRootUnexpectedMode { expected: 448, actual: 493 }"
    );
    assert!(require_empty_scratch(&Vec::new(), &git("u"), b"/s").is_ok());
    assert_eq!(
        git_reason(require_empty_scratch(&vec![b"x".to_vec()], &git("u"), b"/s")),
        "ScratchRootNotEmpty"
    );
    let mapped = |reason| {
        let root = b"/s".to_vec();
        let error = EngineError::PackCapture { root: root.clone(), path: root, reason };
        git_reason::<()>(Err(map_scratch_error(&git("u"), b"/s", error)))
    };
    assert_eq!(mapped(PackCaptureIssue::SourceRootMustBeAbsolute), "ScratchRootMustBeAbsolute");
    assert_eq!(mapped(PackCaptureIssue::SourceRootMissing), "ScratchRootMissing");
    assert_eq!(mapped(PackCaptureIssue::SourceRootNotDirectory), "ScratchRootNotDirectory");
    assert_eq!(mapped(PackCaptureIssue::SymbolicLink), "ScratchRootSymbolicLink");
    assert_eq!(mapped(PackCaptureIssue::ProtectedStateOverlap), "ProtectedStateOverlap");
    assert_eq!(mapped(PackCaptureIssue::ObservationChanged), "ScratchRootObservationChanged");
    assert!(require_digest(Some("a"), "a", &git("u"), b"/s").is_ok());
    assert!(matches!(
        require_digest(Some("a"), "b", &git("u"), b"/s"),
        Err(EngineError::GitAcquisition { reason: GitAcquisitionIssue::DigestMismatch { .. }, .. })
    ));
}

#[test]
fn absent_packs_are_cache_misses() {
    let target = ObjectTarget {
        flavor: ObjectFlavor::Pack,
        digest: "x".to_owned(),
        path: b"/p".to_vec(),
    };
    assert!(cached_or_missing(Ok(true)).unwrap());
    assert!(!cached_or_missing(Err(target.error(CanonicalObjectIssue::Missing))).unwrap());
    assert!(cached_or_missing(Err(target.error(CanonicalObjectIssue::ObservationChanged))).is_err());
    assert!(cached_or_missing(Err(EngineError::ReadOnlyStore)).is_err());
}

fn node(id: &str, source: LockSource, digest: &str) -> GraphNode {
    GraphNode { node_id: id.to_owned(), source, digest: digest.to_owned() }
}

fn texts(list: &[&str]) -> Vec<String> {
    list.iter().map(|text| (*text).to_owned()).collect()
}

fn mixed() -> Vec<GraphNode> {
    vec![
        node("0", LockSource::Root, "d0"),
        node("1", LockSource::Local("a".to_owned()), "d1"),
        node("2", LockSource::Git(git("u")), "d2"),
        node("3", LockSource::Git(git("u")), "d2"),
    ]
}

#[test]
fn sources_need_their_grants() {
    assert!(validate_mixed_grants(&mixed(), &texts(&["a"]), &texts(&["u"])).is_ok());
    assert!(matches!(
        validate_mixed_grants(&mixed(), &texts(&[]), &texts(&[])),
        Err(GraphAcquisitionError::LocalSourceNotGranted { node_id, locator })
            if node_id == "1" && locator == "a"
    ));
    assert!(matches!(
        validate_mixed_grants(&mixed(), &texts(&["a"]), &texts(&[])),
        Err(GraphAcquisitionError::GitSourceNotGranted { node_id, url })
            if node_id == "2" && url == "u"
    ));
    assert!(matches!(
        validate_local_grants(&mixed(), &texts(&["a"])),
        Err(GraphAcquisitionError::UnsupportedGitSource { node_id, git_source })
            if node_id == "2" && git_source.url == "u"
    ));
    assert!(validate_local_grants(&mixed()[..2].iter().map(|found| {
        node(&found.node_id, found.source.copied(), &found.digest)
    }).collect(), &texts(&["a"])).is_ok());
    let firsts: Vec<bool> = (0..4).map(|place| is_first(&mixed(), place)).collect();
    assert_eq!(firsts, [false, false, true, false]);
    let scratch = |digest: &str| PackScratch { digest: digest.to_owned(), root: b"/s".to_vec() };
    assert!(missing_scratch(&texts(&["b", "a"]), &vec![scratch("a"), scratch("b")]).is_none());
    assert_eq!(missing_scratch(&texts(&["c", "b", "a"]), &vec![scratch("a")]).unwrap(), "b");
}

#[test]
fn sources_are_ordered() {
    let ordered = [
        LockSource::Root,
        LockSource::Local("a".to_owned()),
        LockSource::Local("b".to_owned()),
        LockSource::Git(git("a")),
        LockSource::Git(git("b")),
    ];
    for (i, left) in ordered.iter().enumerate() {
        for (j, right) in ordered.iter().enumerate() {
            assert_eq!(left.is_before(right), i < j);
            assert_eq!(left.is_same(right), i == j);
        }
    }
    assert!(text_before("a", "ab"));
    assert!(!text_before("b", "ab"));
}

#[test]
fn git_authority_goes_with_git_nodes() {
    let inputs = |urls: &[&str]| GraphAcquisitionInputs::new(Vec::new(), texts(urls), Vec::new());
    let config = || GitAcquisitionConfig::new(b"/usr/bin/git".to_vec()).ok();
    let acquire = |urls: &[&str], git| {
        StaticGraphAcquisitionV1::acquire(b"/r".to_vec(), inputs(urls), git)
    };
    let local = vec![node("0", LockSource::Root, "d0")];
    assert_eq!(
        choose_way(&StaticGraphAcquisitionV1::cached(), &mixed()).unwrap(),
        AcquisitionWay::Cached
    );
    assert_eq!(choose_way(&acquire(&["u"], config()), &mixed()).unwrap(), AcquisitionWay::Mixed);
    assert_eq!(choose_way(&acquire(&[], None), &local).unwrap(), AcquisitionWay::Local);
    assert!(matches!(
        choose_way(&acquire(&["u"], None), &mixed()),
        Err(StaticDeploymentPrepareError::GitConfigurationRequired)
    ));
    for acquisition in [acquire(&[], config()), acquire(&["u"], None)] {
        assert!(matches!(
            choose_way(&acquisition, &local),
            Err(StaticDeploymentPrepareError::GitConfigurationNotApplicable)
        ));
    }
    let request = StaticDeploymentPrepareRequestV1::new(
        local,
        StaticGraphAcquisitionV1::cached(),
        texts(&["sha256-1"]),
        Some("work".to_owned()),
        "main".to_owned(),
        "home".to_owned(),
    );
    assert_eq!(request.lock().len(), 1);
    assert!(matches!(request.acquisition(), StaticGraphAcquisitionV1::Cached));
    assert_eq!(request.component_authorization(), &texts(&["sha256-1"]));
    assert_eq!(request.profile().unwrap(), "work");
    assert_eq!(request.namespace(), "main");
    assert_eq!(request.target_authority(), "home");
    assert_eq!(request.way().unwrap(), AcquisitionWay::Cached);
}

#[test]
fn inputs_and_outcomes_hold_what_they_were_made_of() {
    let scratch = PackScratch { digest: "d".to_owned(), root: b"/s".to_vec() };
    let inputs = GraphAcquisitionInputs::new(texts(&["a"]), texts(&["u"]), vec![scratch]);
    assert_eq!(inputs.local_locators(), &texts(&["a"]));
    assert_eq!(inputs.git_urls(), &texts(&["u"]));
    assert_eq!(inputs.git_scratch_roots()[0].digest, "d");
    assert_eq!(inputs, inputs.clone());
    assert_ne!(inputs, GraphAcquisitionInputs::default());
    assert!(GraphAcquisitionInputs::default().local_locators().is_empty());
    assert!(LockResolutionInputs::default().git_scratch_roots().is_empty());
    let scratch = SourceScratch { source: git("u"), root: b"/s".to_vec() };
    let inputs = LockResolutionInputs::new(texts(&["a"]), texts(&["u"]), vec![scratch]);
    assert!(inputs.format_component_execution_profile().is_none());
    let inputs = inputs.with_format_component_execution_profile("sha256-p".to_owned());
    assert_eq!(inputs.format_component_execution_profile().unwrap(), "sha256-p");
    assert_eq!(inputs.git_scratch_roots()[0].source.url, "u");
    let outcome = LockOperationOutcome::new(b"lock".to_vec(), LockFilePublication::Created);
    assert_eq!(outcome.lock(), b"lock");
    assert_eq!(outcome.publication(), LockFilePublication::Created);
    assert_eq!(outcome.into_lock(), b"lock");
    let entry = PlanIndexEntryV1::new("p".to_owned(), -3, 4);
    assert_eq!(entry, entry.clone());
    assert_eq!(entry.plan_id(), "p");
    assert_eq!((entry.modified_seconds(), entry.modified_nanoseconds()), (-3, 4));
}

fn pack(source: LockSource, digest: &str, package: &str, needs: &[(&str, &str)]) -> DiscoveredNode {
    DiscoveredNode {
        source,
        digest: digest.to_owned(),
        package: package.to_owned(),
        dependencies: needs
            .iter()
            .map(|(package, locator)| Dependency {
                alias: format!("the-{package}"),
                package: (*package).to_owned(),
                source: LockSource::Local((*locator).to_owned()),
            })
            .collect(),
        components: Vec::new(),
    }
}

#[test]
fn graphs_are_closed_under_their_dependencies() {
    let root = pack(LockSource::Root, "d0", "root", &[("one", "a"), ("two", "b")]);
    let mut resolver = LockResolver::start(root, 10, 3, 100).unwrap();
    let mut asked = Vec::new();
    loop {
        let (next, request) = resolver.next(true);
        resolver = match request {
            ResolveRequest::Discover { source: LockSource::Local(locator) } => {
                let found = match locator.as_str() {
                    "a" => pack(LockSource::Local("a".to_owned()), "d1", "one", &[("two", "b")]),
                    _ => pack(LockSource::Local("b".to_owned()), "d2", "two", &[("one", "a")]),
                };
                asked.push(locator);
                next.supply(found, 5).unwrap()
            }
            ResolveRequest::Finished => {
                resolver = next;
                break;
            }
            other => panic!("{other:?}"),
        };
    }
    assert_eq!(asked, ["a", "b"]);
    let nodes = resolver.into_nodes();
    let packages: Vec<&str> = nodes.iter().map(|found| found.package.as_str()).collect();
    assert_eq!(packages, ["root", "one", "two"]);
}

#[test]
fn resolution_is_refused_for_wrong_or_large_packs() {
    let root = || pack(LockSource::Root, "d0", "root", &[("one", "a")]);
    assert!(matches!(
        LockResolver::start(root(), MAX_GRAPH_OBJECT_BYTES + 1, 3, 100),
        Err(LockOperationError::ResourceLimitExceeded { resource, .. })
            if resource == "unique pack bytes"
    ));
    assert!(matches!(
        LockResolver::start(root(), 1, 101, 100),
        Err(LockOperationError::ResourceLimitExceeded { resource, limit: 100, actual: 101 })
            if resource == "pinned source descriptors"
    ));
    let (resolver, request) = LockResolver::start(root(), 1, 3, 100).unwrap().next(true);
    assert!(matches!(request, ResolveRequest::Discover { .. }));
    let wrong = pack(LockSource::Local("a".to_owned()), "d1", "other", &[]);
    assert!(matches!(
        resolver.supply(wrong, 5),
        Err(LockOperationError::PackageMismatch { expected, actual, .. })
            if expected == "one" && actual == "other"
    ));
    let (resolver, _) = LockResolver::start(root(), 1, 3, 100).unwrap().next(true);
    let large = pack(LockSource::Local("a".to_owned()), "d1", "one", &[]);
    assert!(matches!(
        resolver.supply(large, MAX_GRAPH_OBJECT_BYTES),
        Err(LockOperationError::ResourceLimitExceeded { resource, .. })
            if resource == "unique pack bytes"
    ));
    let mut with_components = root();
    with_components.components = texts(&["c"]);
    with_components.dependencies = Vec::new();
    let (_, request) = LockResolver::start(with_components, 1, 3, 100).unwrap().next(false);
    assert!(matches!(
        request,
        ResolveRequest::Failed(LockOperationError::MissingFormatComponentExecutionProfile)
    ));
}

#[test]
fn lock_resources_are_counted() {
    assert_eq!(charge_descriptors(3, 4, 7).unwrap(), 7);
    assert!(charge_descriptors(3, 5, 7).is_err());
    assert!(charge_descriptors(u64::MAX, 5, u64::MAX).is_ok());
    assert_eq!(pinned_descriptor_limit(None), pinned_descriptor_limit(Some(u64::MAX)));
    assert!(pinned_descriptor_limit(Some(100)) < 100);
}

const LOCK: &[u8] = b"/work/pack/malm.lock";

fn lock_reason<T: Debug>(result: Result<T, LockOperationError>) -> String {
    match result {
        Err(LockOperationError::LockFile { reason, .. }) => format!("{reason:?}"),
        other => format!("{other:?}"),
    }
}

#[test]
fn lock_files_are_checked() {
    assert!(validate_lock_stat(LOCK, &regular(9), 1, 7).is_ok());
    for (stat, words) in [
        (directory(), "NotRegular".to_owned()),
        (
            FileStat { uid: 8, ..regular(9) },
            "WrongOwner { expected_uid: 7, actual_uid: 8 }".to_owned(),
        ),
        (
            FileStat { mode: 0o100600, ..regular(9) },
            "UnexpectedMode { expected: 420, actual: 384 }".to_owned(),
        ),
        (
            FileStat { nlink: 2, ..regular(9) },
            "UnexpectedLinks { expected: 1, actual: 2 }".to_owned(),
        ),
        (
            regular(MAX_LOCK_BYTES as i64 + 1),
            format!("TooLarge {{ limit: {MAX_LOCK_BYTES}, actual: {} }}", MAX_LOCK_BYTES + 1),
        ),
    ] {
        assert_eq!(lock_reason(validate_lock_stat(LOCK, &stat, 1, 7)), words);
    }
    assert!(require_absent(Err(failure(HostErrorKind::NotFound)), LOCK).is_ok());
    assert_eq!(lock_reason(require_absent(Ok(regular(1)), LOCK)), "AlreadyExists");
    let gone = || Err(failure(HostErrorKind::NotFound));
    assert_eq!(lock_reason(check_observed_lock(LockRole::Existing, gone(), LOCK, 7)), "Missing");
    assert!(check_observed_lock(LockRole::Staging, gone(), LOCK, 7).unwrap().is_none());
    assert!(matches!(
        map_lock_open_error(LockRole::Existing, failure(HostErrorKind::Loop), LOCK),
        LockOperationError::LockFile { reason: LockFileIssue::ObservationChanged, .. }
    ));
    let changed = FileStat { mtime: 99, ..regular(9) };
    let opened = |stat| check_opened_lock(LockRole::Existing, &regular(9), Ok(stat), LOCK, 7);
    assert_eq!(opened(regular(9)).unwrap(), regular(9));
    assert_eq!(lock_reason(opened(changed)), "ObservationChanged");
    assert!(check_lock_length(MAX_LOCK_BYTES, LOCK).is_ok());
    assert!(check_lock_length(MAX_LOCK_BYTES + 1, LOCK).is_err());
    assert!(matches!(
        check_encoded_length(MAX_LOCK_BYTES + 1),
        Err(LockOperationError::EncodedLockTooLarge { .. })
    ));
    assert_eq!(bound_lock_stat(Ok(regular(9)), Ok(regular(9)), LOCK, 7).unwrap(), regular(9));
    assert!(revalidate_lock(&regular(9), Ok(regular(9)), Ok(regular(9)), LOCK, 7).is_ok());
    assert!(revalidate_lock(&changed, Ok(regular(9)), Ok(regular(9)), LOCK, 7).is_err());
    assert!(check_read_staging(&regular(9), &regular(9), &regular(9), LOCK, 7).is_ok());
    assert!(check_read_staging(&regular(9), &changed, &regular(9), LOCK, 7).is_err());
    assert!(check_staging_content(b"x", Some(b"x"), LOCK).is_ok());
    for encoded in [None, Some(&b"y"[..])] {
        assert_eq!(lock_reason(check_staging_content(b"x", encoded, LOCK)), "UnsafeStaging");
    }
}

#[test]
fn locks_are_published_once_and_read_back() {
    let start = || start_lock_operation(StoreAccess::ReadWrite);
    let create = |step: LockStep, yes| step.after(Ok(yes), false, LOCK);
    let (steps, created) = follow(start(), create, |_| true);
    assert_eq!(
        steps[15..],
        [
            "RevalidateRootLast", "WriteNew", "RevalidateBeforeLink", "RequireAbsentAgain",
            "Link", "BindPublished", "SyncRoot", "RevalidatePublishedRoot", "ReadBack",
        ]
    );
    assert_eq!(created.unwrap(), LockFilePublication::Created);
    let update = |step: LockStep, yes| step.after(Ok(yes), true, LOCK);
    let (steps, unchanged) = follow(start(), update, |_| true);
    assert_eq!(steps.last().unwrap(), "RevalidateUnchangedAgain");
    assert_eq!(unchanged.unwrap(), LockFilePublication::Unchanged);
    let (steps, updated) = follow(start(), update, |step| step != "RevalidateRootLast");
    assert!(steps.contains(&"Replace".to_owned()));
    assert_eq!(updated.unwrap(), LockFilePublication::Updated);
    let (_, busy) = follow(start(), update, |step| step != "LockRoot");
    assert_eq!(lock_reason(busy), "Busy");
    let (_, taken) = follow(start(), create, |step| step != "Link");
    assert_eq!(lock_reason(taken), "AlreadyExists");
    assert!(matches!(
        start_lock_operation(StoreAccess::ReadOnly),
        Progress::Failed(LockOperationError::Source { source: EngineError::ReadOnlyStore, .. })
    ));
    let failed = LockOperationError::Assembly { detail: "d".to_owned() };
    assert!(matches!(
        LockStep::RevalidateBeforeReplace.after(Err(failed), true, LOCK),
        Progress::Next(LockStep::CleanupAfter(_))
    ));
}
