//! Discovering the packs of a lock, locking them, and acquiring a locked graph.

use malm_engine::deployment::{
    AcquisitionWay, GraphAcquisitionInputs, LockResolutionInputs, PackScratch, SourceScratch,
};
use malm_engine::engine_config::EngineConfig;
use malm_engine::error::{
    EngineError, GitSource, GraphAcquisitionError, LockOperationError, PackCaptureIssue,
    PackObjectIssue,
};
use malm_engine::git::config::GitAcquisitionConfig;
use malm_engine::graph_acquisition::GraphNode;
use malm_engine::graph_sources::LockSource;
use malm_engine::graph_steps::{start_graph_acquisition, GraphAction, GraphReply};
use malm_engine::lock_discovery::{
    after_cached_load, after_fetch, dependency_way, start_local, CachedLoad, DependencyWay,
    LocalStep,
};
use malm_engine::lock_graph::{
    Dependency, DiscoveredNode, LockResolver, ResolveRequest, MAX_PROCESSED_PACK_BYTES,
};
use malm_engine::lock_nodes::{locked_nodes, LockedComponent, LockedDependency, Snapshots};
use malm_engine::store_steps::Progress;
use malm_engine::store_types::{PackObjectPublication, StoreAccess};

fn text(value: &str) -> String {
    value.to_owned()
}

fn texts(list: &[&str]) -> Vec<String> {
    list.iter().map(|value| text(value)).collect()
}

fn git(url: &str) -> GitSource {
    GitSource { url: text(url), commit: text("c"), subdir: text(".") }
}

fn local(locator: &str) -> LockSource {
    LockSource::Local(text(locator))
}

fn node(id: &str, source: LockSource, digest: &str) -> GraphNode {
    GraphNode { node_id: text(id), source, digest: text(digest) }
}

fn missing_pack() -> EngineError {
    EngineError::PackObject {
        digest: text("d"),
        path: b"/p".to_vec(),
        reason: PackObjectIssue::Missing,
    }
}

#[test]
fn packs_are_obtained_under_grants() {
    let scratch = |url: &str| SourceScratch { source: git(url), root: b"/scratch".to_vec() };
    let inputs = LockResolutionInputs::new(
        texts(&["a"]),
        texts(&["u", "v", "w", "x"]),
        vec![scratch("u"), scratch("v")],
    );
    let old = vec![
        node("0", LockSource::Root, "d0"),
        node("1", LockSource::Git(git("u")), "d1"),
        node("2", LockSource::Git(git("w")), "d2"),
    ];
    let way = |source: LockSource| dependency_way(&inputs, &old, &source);
    assert_eq!(way(local("a")).unwrap(), DependencyWay::Capture { locator: text("a") });
    assert!(matches!(
        way(local("b")),
        Err(LockOperationError::LocalSourceNotGranted { locator }) if locator == "b"
    ));
    let git_way = |url: &str| way(LockSource::Git(git(url)));
    assert_eq!(
        git_way("u").unwrap(),
        DependencyWay::Acquire { digest: text("d1"), scratch: b"/scratch".to_vec() }
    );
    assert_eq!(git_way("v").unwrap(), DependencyWay::Discover { scratch: b"/scratch".to_vec() });
    assert_eq!(git_way("w").unwrap(), DependencyWay::LoadCached { digest: text("d2") });
    assert!(matches!(
        git_way("x"),
        Err(LockOperationError::MissingGitScratch { git_source }) if git_source == git("x")
    ));
    assert!(matches!(
        git_way("y"),
        Err(LockOperationError::GitSourceNotGranted { url }) if url == "y"
    ));
}

#[test]
fn cached_packs_are_verified_or_fetched() {
    let load = |found| after_cached_load(&git("u"), "d", found);
    assert_eq!(load(CachedLoad::Verified).unwrap(), PackObjectPublication::Reused);
    assert!(matches!(
        load(CachedLoad::Failed(missing_pack())),
        Err(LockOperationError::MissingGitScratch { git_source }) if git_source == git("u")
    ));
    assert!(matches!(
        load(CachedLoad::Failed(EngineError::ReadOnlyStore)),
        Err(LockOperationError::Source {
            source_identity: LockSource::Git(source),
            source: EngineError::ReadOnlyStore,
        }) if source == git("u")
    ));
    assert!(matches!(
        load(CachedLoad::Invalid { detail: text("no manifest") }),
        Err(LockOperationError::CachedPackInvalid { digest, detail, .. })
            if digest == "d" && detail == "no manifest"
    ));
    assert_eq!(
        after_fetch(&git("u"), Ok(PackObjectPublication::Published)).unwrap(),
        PackObjectPublication::Published
    );
    assert!(matches!(
        after_fetch(&git("u"), Err(EngineError::ReadOnlyStore)),
        Err(LockOperationError::Source { source: EngineError::ReadOnlyStore, .. })
    ));
}

#[test]
fn directories_are_pinned_before_they_are_captured() {
    let start = |locator: &str, root: &[u8], limit| {
        start_local(text(locator), root, b"/state/malm", 3, 3, limit)
    };
    let Progress::Next(pin) = start("../other", b"/work/root", 100) else {
        panic!("the directory is not pinned");
    };
    assert_eq!(
        pin,
        LocalStep::Pin { locator: text("../other"), path: b"/work/other".to_vec(), pinned: 6 }
    );
    let Progress::Next(capture) = pin.clone().after(Ok(b"/work/./other/".to_vec())) else {
        panic!("the directory is not captured");
    };
    assert!(matches!(&capture, LocalStep::Capture { path, .. } if path == b"/work/other"));
    assert!(matches!(capture.clone().after(Ok(Vec::new())), Progress::Done(6)));
    assert!(matches!(
        capture.after(Err(EngineError::ReadOnlyStore)),
        Progress::Failed(LockOperationError::Source { source: EngineError::ReadOnlyStore, .. })
    ));
    assert!(matches!(
        pin.clone().after(Ok(b"/work/elsewhere".to_vec())),
        Progress::Failed(LockOperationError::Source {
            source: EngineError::PackCapture { reason: PackCaptureIssue::ObservationChanged, .. },
            ..
        })
    ));
    assert!(matches!(
        pin.after(Err(EngineError::ReadOnlyStore)),
        Progress::Failed(LockOperationError::Source { source: EngineError::ReadOnlyStore, .. })
    ));
    assert!(matches!(
        start("a", b"work", 100),
        Progress::Failed(LockOperationError::Source {
            source: EngineError::PackCapture {
                reason: PackCaptureIssue::SourceRootMustBeAbsolute,
                ..
            },
            ..
        })
    ));
    assert!(matches!(
        start("../../state", b"/work/root", 0),
        Progress::Failed(LockOperationError::Source {
            source: EngineError::PackCapture { reason: PackCaptureIssue::ProtectedStateOverlap, .. },
            ..
        })
    ));
    assert!(matches!(
        start("../other", b"/work/root", 5),
        Progress::Failed(LockOperationError::ResourceLimitExceeded { limit: 5, actual: 6, .. })
    ));
}

fn pack(digest: &str, package: &str, needs: &[(&str, LockSource)]) -> DiscoveredNode {
    DiscoveredNode {
        source: LockSource::Root,
        digest: text(digest),
        package: text(package),
        dependencies: needs
            .iter()
            .map(|(package, source)| Dependency {
                alias: format!("the-{package}"),
                package: text(package),
                source: source.copied(),
            })
            .collect(),
        components: Vec::new(),
    }
}

fn resolved() -> (Vec<DiscoveredNode>, u64) {
    let from_git = LockSource::Git(git("u"));
    let root = pack("d0", "root", &[("git", from_git.copied()), ("one", local("a"))]);
    let mut resolver = LockResolver::start(root, 10, 3, 100).unwrap();
    loop {
        let (next, request) = resolver.next(true);
        resolver = match request {
            ResolveRequest::Discover { source: LockSource::Local(_) } => {
                next.supply(pack("d1", "one", &[("git", from_git.copied())]), 5).unwrap()
            }
            ResolveRequest::Discover { .. } => {
                let mut found = pack("d2", "git", &[]);
                found.components = texts(&["format"]);
                next.supply(found, 7).unwrap()
            }
            ResolveRequest::Finished => {
                let processed = next.processed();
                return (next.into_nodes(), processed);
            }
            ResolveRequest::Failed(error) => panic!("{error:?}"),
        };
    }
}

#[test]
fn locks_hold_packs_in_the_order_of_their_sources() {
    let (nodes, _) = resolved();
    let found: Vec<&str> = nodes.iter().map(|node| node.package.as_str()).collect();
    assert_eq!(found, ["root", "git", "one"]);
    let graph = locked_nodes(&nodes, &texts(&["id-root", "id-git", "id-one"]), Some("profile"));
    assert_eq!(graph.root_id, "id-root");
    let locked: Vec<(&str, &str)> = graph
        .packs
        .iter()
        .map(|pack| (pack.node_id.as_str(), pack.digest.as_str()))
        .collect();
    assert_eq!(locked, [("id-root", "d0"), ("id-one", "d1"), ("id-git", "d2")]);
    let dependency = |alias: &str, id: &str| LockedDependency {
        alias: text(alias),
        node_id: text(id),
    };
    assert_eq!(
        graph.packs[0].dependencies,
        [dependency("the-git", "id-git"), dependency("the-one", "id-one")]
    );
    assert_eq!(graph.packs[1].dependencies, [dependency("the-git", "id-git")]);
    assert_eq!(
        graph.packs[2].components,
        [LockedComponent { declaration: text("format"), execution_profile: text("profile") }]
    );
}

#[test]
fn captured_sources_must_stay_as_they_were() {
    let (nodes, processed) = resolved();
    assert_eq!(processed, 22);
    let graph = locked_nodes(&nodes, &texts(&["r", "g", "o"]), Some("profile"));
    let first = || Snapshots::new(&graph.packs, processed);
    assert!(matches!(first().current(), Some(LockSource::Root)));
    let second = || first().captured(Ok((text("d0"), 10))).unwrap();
    assert_eq!(second().current().unwrap(), &local("a"));
    let last = second().captured(Ok((text("d1"), 5))).unwrap();
    assert!(last.current().is_none());
    assert!(last.captured(Ok((text("x"), 5))).is_ok());
    assert!(matches!(
        second().captured(Ok((text("x"), 5))),
        Err(LockOperationError::SourceChanged { source_identity, expected, actual })
            if source_identity == local("a") && expected == "d1" && actual == "x"
    ));
    assert!(matches!(
        first().captured(Ok((text("x"), MAX_PROCESSED_PACK_BYTES))),
        Err(LockOperationError::ResourceLimitExceeded { resource, .. })
            if resource == "processed pack bytes"
    ));
    assert!(matches!(
        first().captured(Err(EngineError::ReadOnlyStore)),
        Err(LockOperationError::Source { source_identity: LockSource::Root, .. })
    ));
}

fn mixed() -> Vec<GraphNode> {
    vec![
        node("0", LockSource::Git(git("u")), "d1"),
        node("1", local("a"), "d2"),
        node("2", LockSource::Root, "d0"),
        node("3", LockSource::Git(git("u")), "d1"),
        node("4", LockSource::Git(git("v")), "d3"),
        node("5", local("../b"), "d2"),
    ]
}

fn grants(scratch: &[&str]) -> GraphAcquisitionInputs {
    GraphAcquisitionInputs::new(
        texts(&["a", "../b"]),
        texts(&["u", "v"]),
        scratch
            .iter()
            .map(|digest| PackScratch { digest: text(digest), root: digest.as_bytes().to_vec() })
            .collect(),
    )
}

type Answer<'a> = &'a dyn Fn(GraphAction) -> GraphReply;

fn acquire(
    nodes: Vec<GraphNode>,
    inputs: &GraphAcquisitionInputs,
    way: AcquisitionWay,
    answer: Answer,
) -> (Vec<GraphAction>, Result<usize, GraphAcquisitionError>) {
    let mut actions = Vec::new();
    let mut progress = start_graph_acquisition(nodes, "2", inputs, way);
    loop {
        progress = match progress {
            Progress::Next(step) => {
                let action = step.action();
                match action {
                    GraphAction::Fetch(place) => {
                        let digest = step.nodes()[place].digest.as_bytes();
                        assert_eq!(step.scratch_root().unwrap(), digest);
                    }
                    GraphAction::CaptureRoot(_) => {
                        assert_eq!(step.capture_path(b"/w/r").unwrap(), b"/w/r");
                    }
                    GraphAction::CaptureLocal(place) => {
                        let path: &[u8] = if place == 1 { b"/w/r/a" } else { b"/w/b" };
                        assert_eq!(step.capture_path(b"/w/r").unwrap(), path);
                    }
                    _ => assert!(step.capture_path(b"/w/r").is_none()),
                }
                actions.push(action);
                step.after(answer(action))
            }
            Progress::Done(nodes) => return (actions, Ok(nodes.len())),
            Progress::Failed(error) => return (actions, Err(error)),
        };
    }
}

#[test]
fn missing_packs_are_fetched_and_directories_captured() {
    let lacking = |action| match action {
        GraphAction::LookUp(4) => GraphReply::Failed(missing_pack()),
        _ => GraphReply::Done,
    };
    let (actions, outcome) =
        acquire(mixed(), &grants(&["d3"]), AcquisitionWay::Mixed, &lacking);
    assert_eq!(
        actions,
        [
            GraphAction::LookUp(0),
            GraphAction::LookUp(4),
            GraphAction::Fetch(4),
            GraphAction::CaptureRoot(2),
            GraphAction::CaptureLocal(1),
            GraphAction::CaptureLocal(5),
            GraphAction::Assemble,
        ]
    );
    assert_eq!(outcome.unwrap(), 6);
    let (actions, outcome) = acquire(mixed(), &grants(&[]), AcquisitionWay::Mixed, &lacking);
    assert_eq!(actions, [GraphAction::LookUp(0), GraphAction::LookUp(4)]);
    assert!(matches!(
        outcome,
        Err(GraphAcquisitionError::MissingGitScratch { digest }) if digest == "d3"
    ));
    let (actions, outcome) =
        acquire(mixed(), &grants(&[]), AcquisitionWay::Mixed, &|_| GraphReply::Done);
    assert!(!actions.iter().any(|action| matches!(action, GraphAction::Fetch(_))));
    assert_eq!(outcome.unwrap(), 6);
}

#[test]
fn acquisition_names_the_node_that_failed() {
    for (place, action) in [
        ("0", GraphAction::LookUp(0)),
        ("2", GraphAction::CaptureRoot(2)),
        ("5", GraphAction::CaptureLocal(5)),
    ] {
        let (actions, outcome) = acquire(mixed(), &grants(&[]), AcquisitionWay::Mixed, &|now| {
            if now == action {
                GraphReply::Failed(EngineError::ReadOnlyStore)
            } else {
                GraphReply::Done
            }
        });
        assert_eq!(actions.last(), Some(&action));
        assert!(matches!(
            outcome,
            Err(GraphAcquisitionError::Source { node_id, source: EngineError::ReadOnlyStore })
                if node_id == place
        ));
    }
    let (_, outcome) = acquire(mixed(), &grants(&[]), AcquisitionWay::Mixed, &|now| match now {
        GraphAction::Assemble => GraphReply::Rejected { detail: text("cycle") },
        _ => GraphReply::Done,
    });
    assert!(matches!(
        outcome,
        Err(GraphAcquisitionError::Assembly { detail }) if detail == "cycle"
    ));
}

#[test]
fn nothing_is_read_without_every_grant() {
    let done = |_| GraphReply::Done;
    let (actions, outcome) =
        acquire(mixed(), &GraphAcquisitionInputs::default(), AcquisitionWay::Mixed, &done);
    assert!(actions.is_empty());
    assert!(matches!(
        outcome,
        Err(GraphAcquisitionError::GitSourceNotGranted { node_id, .. }) if node_id == "0"
    ));
    let (actions, outcome) = acquire(mixed(), &grants(&[]), AcquisitionWay::Local, &done);
    assert!(actions.is_empty());
    assert!(matches!(
        outcome,
        Err(GraphAcquisitionError::UnsupportedGitSource { node_id, .. }) if node_id == "0"
    ));
    let directories = || vec![node("1", LockSource::Root, "d"), node("2", LockSource::Root, "d0")];
    let (actions, outcome) = acquire(directories(), &grants(&[]), AcquisitionWay::Local, &done);
    assert_eq!(actions, [GraphAction::CaptureRoot(1), GraphAction::Assemble]);
    assert!(outcome.is_ok());
    let (actions, _) = acquire(directories(), &grants(&[]), AcquisitionWay::Cached, &done);
    assert_eq!(actions, [GraphAction::Assemble]);
}

#[test]
fn configurations_can_be_copied_and_compared() {
    let base = || EngineConfig::new(b"/state/malm".to_vec(), StoreAccess::ReadWrite, None).unwrap();
    let with = |config: EngineConfig, name: &str, path: &[u8]| {
        config.with_target_authority(text(name), path.to_vec()).unwrap()
    };
    let one = with(with(base(), "home", b"/home"), "etc", b"/etc");
    let other = with(with(base(), "etc", b"/etc"), "home", b"/home/.");
    assert!(one == other);
    assert!(one.clone() == one);
    assert!(one != base());
    assert!(base() != one);
    assert!(with(base(), "home", b"/home") != with(base(), "home", b"/other"));
    let git = GitAcquisitionConfig::new(b"/usr/bin/git".to_vec()).unwrap();
    assert!(git.clone() == git);
}
