//! The order in which the store is opened, initialized and checked.

use std::fmt::Debug;

use malm_engine::engine_config::EngineConfig;
use malm_engine::error::EngineError;
use malm_engine::ports::SecureRandomPort;
use malm_engine::stat::{EntryKind, FileStat, HostErrorKind, HostFailure};
use malm_engine::state_parent::{
    fresh_staging_leaf, inspect_created_leaf, staging_leaf, start_leaf, state_parent_leaves,
    LeafStep, StagingStep, MAX_STAGING_ATTEMPTS,
};
use malm_engine::state_root::{
    check_descriptor, climb, directory_contains, ensure_bound, ensure_parent_link, marker_path,
    status_of, validate_layout_entry_stat, validate_marker_stat, validate_state_parent,
    validate_store_root, AncestryStep, DescriptorDecode, MetadataState,
};
use malm_engine::store_pin::{
    check_layout_unchanged, check_observed_entry, layout_after_look, pin_after_binding,
    pin_after_decoding, pin_after_inspection, pin_after_layout, pin_after_listing,
    pin_after_observation, pin_after_open, pin_after_read, pin_after_second_look,
    require_root_entry, revalidate_descriptor, BindPoint, PinStep, RootEntryKind,
};
use malm_engine::store_steps::{
    start_initialization, InitializeStep, OpenReadyStep, Progress, PublishDescriptorStep,
    StatusStep,
};
use malm_engine::store_types::{StoreAccess, StoreStatus};

const ROOT: &[u8] = b"/state/root";
const PARENT: &[u8] = b"/state";

fn directory(mode: u32, uid: u32) -> FileStat {
    FileStat {
        dev: 1,
        ino: 2,
        mode: 0o040000 | mode,
        uid,
        gid: 0,
        nlink: 2,
        size: 0,
        mtime: 10,
        mtime_nsec: 11,
        ctime: 12,
        ctime_nsec: 13,
    }
}

fn regular(mode: u32, uid: u32, size: i64) -> FileStat {
    FileStat { mode: 0o100000 | mode, nlink: 1, size, ..directory(mode, uid) }
}

fn failure(kind: HostErrorKind) -> HostFailure {
    HostFailure { kind, detail: "host detail".to_owned() }
}

fn follow<S: Debug, D: Debug>(
    start: Progress<S, D>,
    advance: impl Fn(S, bool) -> Progress<S, D>,
    answer: impl Fn(&str) -> bool,
) -> (Vec<String>, Result<D, EngineError>) {
    let mut steps = Vec::new();
    let mut progress = start;
    loop {
        match progress {
            Progress::Next(step) => {
                let name = format!("{step:?}");
                let yes = answer(&name);
                steps.push(name);
                progress = advance(step, yes);
            }
            Progress::Done(result) => return (steps, Ok(result)),
            Progress::Failed(error) => return (steps, Err(error)),
        }
    }
}

#[test]
fn status_is_told_after_the_last_checks() {
    let advance = |step: StatusStep, yes| step.after(Ok(yes));
    let (steps, status) = follow(Progress::Next(StatusStep::OpenParent), advance, |_| true);
    assert_eq!(
        steps,
        [
            "OpenParent", "CheckParent", "BindParent", "OpenRoot", "CheckRoot", "BindRoot",
            "OpenRootIo", "Inspect", "RecheckRoot(Ready)", "RebindRoot(Ready)",
            "RecheckParent(Ready)", "RebindParent(Ready)",
        ]
    );
    assert!(matches!(status, Ok(StoreStatus::Ready)));

    let start = Progress::Next(StatusStep::OpenParent);
    let (steps, status) = follow(start, advance, |step| step != "OpenRoot");
    assert_eq!(steps.last().unwrap(), "BindParentOfAbsent");
    assert!(matches!(status, Ok(StoreStatus::Absent)));

    let start = Progress::Next(StatusStep::OpenParent);
    let (_, status) = follow(start, advance, |step| step != "Inspect");
    assert!(matches!(status, Ok(StoreStatus::Uninitialized)));
    assert!(matches!(
        StatusStep::OpenParent.after(Ok(false)),
        Progress::Done(StoreStatus::Absent)
    ));
    assert!(matches!(
        StatusStep::BindRoot.after(Err(EngineError::ReadOnlyStore)),
        Progress::Failed(EngineError::ReadOnlyStore)
    ));
}

#[test]
fn a_fresh_store_is_staged_published_and_made_durable() {
    let absent = ["OpenRoot", "Inspect"];
    let advance = |step: InitializeStep, yes| step.after(Ok(yes), PARENT, ROOT);
    let start = start_initialization(StoreAccess::ReadWrite);
    let (steps, outcome) = follow(start, advance, |step| !absent.contains(&step));
    assert_eq!(
        steps,
        [
            "OpenParent", "CheckParent", "BindParent", "OpenRoot", "CheckParentBeforeStaging",
            "BindParentBeforeStaging", "Stage", "BindStaged", "BindParentBeforePublishing",
            "PublishRoot", "BindPublished", "RebindPublished", "CheckRoot", "BindRoot",
            "OpenRootIo", "Inspect", "BindParentBeforeDescriptor", "BindRootBeforeDescriptor",
            "PublishDescriptor", "InitializeCatalog", "SyncRoot", "SyncParent", "FinalInspect",
            "FinalCheckRoot", "FinalBindRoot", "FinalCheckParent", "FinalBindParent",
        ]
    );
    assert_eq!(outcome.unwrap().status(), StoreStatus::Ready);
}

#[test]
fn initialization_meets_winners_and_losers() {
    assert!(matches!(
        start_initialization(StoreAccess::ReadOnly),
        Progress::Failed(EngineError::ReadOnlyStore)
    ));
    let after = |step: InitializeStep, reply| step.after(reply, PARENT, ROOT);
    assert!(matches!(
        after(InitializeStep::PublishRoot, Ok(false)),
        Progress::Next(InitializeStep::DiscardForWinner)
    ));
    assert!(matches!(
        after(InitializeStep::OpenWinner, Ok(false)),
        Progress::Failed(EngineError::RootObservationChanged { path }) if path == ROOT
    ));
    assert!(matches!(
        after(InitializeStep::PublishRoot, Err(EngineError::ReadOnlyStore)),
        Progress::Next(InitializeStep::DiscardForFailure(EngineError::ReadOnlyStore))
    ));
    assert!(matches!(
        after(InitializeStep::DiscardForFailure(EngineError::ReadOnlyStore), Ok(true)),
        Progress::Failed(EngineError::ReadOnlyStore)
    ));
    assert!(matches!(
        after(InitializeStep::ReopenParent, Ok(false)),
        Progress::Failed(EngineError::StateParentObservationChanged { path }) if path == PARENT
    ));
    let Progress::Failed(error) = after(InitializeStep::FinalInspect, Ok(false)) else {
        panic!("a store without its descriptor is no initialized store");
    };
    assert_eq!(
        error.message(),
        "malformed store metadata /state/root/descriptor.json: descriptor.json changed while it was being inspected; the incompatible root was left unchanged; move or remove the entire root for a clean reset (no state, history, or cache import is available)"
    );
}

#[test]
fn a_ready_store_is_opened_in_order() {
    let advance = |step: OpenReadyStep, yes| step.after(Ok(yes), ROOT);
    let (steps, opened) = follow(Progress::Next(OpenReadyStep::OpenParent), advance, |_| true);
    assert_eq!(steps.len(), 15);
    assert_eq!(steps.last().unwrap(), "RebindParent");
    assert!(opened.is_ok());
    for (step, status) in [
        (OpenReadyStep::OpenParent, StoreStatus::Absent),
        (OpenReadyStep::OpenRoot, StoreStatus::Absent),
        (OpenReadyStep::PinDescriptor, StoreStatus::Uninitialized),
    ] {
        assert!(matches!(
            step.after(Ok(false), ROOT),
            Progress::Failed(EngineError::StoreNotReady { status: found }) if found == status
        ));
    }
    assert!(matches!(
        OpenReadyStep::CompareHandles.after(Ok(false), ROOT),
        Progress::Failed(EngineError::RootObservationChanged { .. })
    ));
}

#[test]
fn a_descriptor_is_linked_once() {
    let advance = |step: PublishDescriptorStep, yes| step.after(Ok(yes), ROOT);
    let start = Progress::Next(PublishDescriptorStep::CreateUnnamed);
    let (steps, linked) = follow(start, advance, |step| step != "InspectBefore");
    assert_eq!(
        steps,
        [
            "CreateUnnamed", "Restrict", "Write", "Sync", "InspectBefore", "Link", "BindLinked",
            "SyncRoot", "RebindLinked", "InspectLinked",
        ]
    );
    assert!(linked.is_ok());
    let start = Progress::Next(PublishDescriptorStep::CreateUnnamed);
    let (steps, won) = follow(start, advance, |step| step != "InspectBefore" && step != "Link");
    assert_eq!(steps[steps.len() - 2..], ["InspectWinner", "SyncWinner"]);
    assert!(won.is_ok());
}

#[test]
fn missing_parents_are_created_beneath_checked_directories() {
    assert_eq!(
        state_parent_leaves(b"/var/./lib/malm"),
        [b"var".to_vec(), b"lib".to_vec(), b"malm".to_vec()]
    );
    let advance = |step: LeafStep, yes| step.after(Ok(yes), PARENT);
    let (steps, created) = follow(Progress::Next(start_leaf(false)), advance, |step| step != "Open");
    assert_eq!(
        steps,
        ["Open", "CheckAbove", "Create", "Pin { created: true }", "Inspect { created: true }", "Bind"]
    );
    assert!(matches!(created, Ok(true)));
    let (steps, _) = follow(Progress::Next(start_leaf(true)), advance, |step| step != "Create");
    assert_eq!(
        steps,
        ["Create", "Pin { created: false }", "Inspect { created: false }", "Recheck", "Bind"]
    );
    assert!(matches!(
        LeafStep::Inspect { created: true }.after(Ok(false), PARENT),
        Progress::Next(LeafStep::Restrict)
    ));
    let refused = validate_state_parent(Ok(directory(0o777, 7)), b"/state/above", 7).unwrap_err();
    assert!(matches!(
        LeafStep::CheckAbove.after(Err(refused), PARENT),
        Progress::Failed(EngineError::StateParentMissing { path }) if path == PARENT
    ));
    assert!(inspect_created_leaf(&directory(0o700, 7), PARENT, 7).unwrap());
    assert!(!inspect_created_leaf(&directory(0o750, 7), PARENT, 7).unwrap());
    assert!(inspect_created_leaf(&directory(0o700, 8), PARENT, 7).is_err());
}

struct FixedRandom(u8);

impl SecureRandomPort for FixedRandom {
    fn fill(&self, bytes: &mut [u8]) -> Result<(), String> {
        bytes.fill(self.0);
        Ok(())
    }
}

struct NoRandom;

impl SecureRandomPort for NoRandom {
    fn fill(&self, _bytes: &mut [u8]) -> Result<(), String> {
        Err("no entropy".to_owned())
    }
}

#[test]
fn staging_names_carry_their_random_digits() {
    assert_eq!(
        staging_leaf(b"root", &[0x00, 0x7f, 0xff, 0x10]),
        ".root.init-007fff10"
    );
    assert_eq!(
        fresh_staging_leaf(&FixedRandom(0xa5), b"root", ROOT).unwrap(),
        ".root.init-a5a5a5a5a5a5a5a5a5a5a5a5a5a5a5a5"
    );
    assert_ne!(
        fresh_staging_leaf(&FixedRandom(1), b"root", ROOT).unwrap(),
        fresh_staging_leaf(&FixedRandom(2), b"root", ROOT).unwrap()
    );
    assert_eq!(
        fresh_staging_leaf(&NoRandom, b"root", ROOT).unwrap_err().message(),
        "generate private state-root staging name /state/root: no entropy"
    );
    assert_eq!(staging_leaf(&[b'r', 0xff], &[]), ".r\u{fffd}.init-");
}

#[test]
fn staging_attempts_are_bounded_and_cleaned_up() {
    let mut progress = Progress::Next(StagingStep::Create { attempt: 0 });
    let mut attempts = 0;
    loop {
        match progress {
            Progress::Next(step) => {
                attempts += 1;
                progress = step.after(Ok(false), ROOT);
            }
            Progress::Done(()) => panic!("no name was ever free"),
            Progress::Failed(error) => {
                assert_eq!(
                    error.message(),
                    "allocate private state-root staging name /state/root: exhausted random staging-name attempts"
                );
                break;
            }
        }
    }
    assert_eq!(attempts, MAX_STAGING_ATTEMPTS);
    assert!(matches!(
        StagingStep::Check.after(Err(EngineError::ReadOnlyStore), ROOT),
        Progress::Next(StagingStep::Discard(EngineError::ReadOnlyStore))
    ));
    assert!(matches!(StagingStep::Check.after(Ok(true), ROOT), Progress::Done(())));
}

#[test]
fn parents_must_be_owned_and_closed_to_others() {
    assert!(validate_state_parent(Ok(directory(0o700, 7)), PARENT, 7).is_ok());
    assert!(validate_state_parent(Ok(directory(0o755, 7)), PARENT, 7).is_ok());
    assert!(validate_state_parent(Ok(directory(0o1700, 7)), PARENT, 7).is_err());
    assert_eq!(
        validate_state_parent(Ok(directory(0o755, 8)), PARENT, 7).unwrap_err().message(),
        "refusing unsafe state parent /state: owned by uid 8, not current effective uid 7"
    );
    assert!(validate_state_parent(Ok(directory(0o775, 7)), PARENT, 7).is_err());
    assert!(validate_store_root(Ok(directory(0o700, 7)), ROOT, 7).is_ok());
    assert_eq!(
        validate_store_root(Ok(directory(0o755, 7)), ROOT, 7).unwrap_err().message(),
        "refusing unsafe state root /state/root: mode must be 0700, found 0755"
    );
    assert!(validate_store_root(Ok(directory(0o700, 8)), ROOT, 7).is_err());
    assert!(validate_store_root(Err(failure(HostErrorKind::Other)), ROOT, 7).is_err());
}

#[test]
fn bound_directories_are_the_pinned_ones() {
    let one = directory(0o700, 7);
    let other = FileStat { ino: 3, ..one };
    assert!(ensure_bound(Ok(one), Ok(one), ROOT).is_ok());
    assert!(matches!(
        ensure_bound(Ok(one), Ok(other), ROOT),
        Err(EngineError::RootObservationChanged { .. })
    ));
    assert!(ensure_parent_link(Ok(one), Ok(one), PARENT).is_ok());
    assert!(matches!(
        ensure_parent_link(Ok(other), Ok(one), PARENT),
        Err(EngineError::StateParentObservationChanged { .. })
    ));
    assert!(one.same_object(&FileStat { mtime: 99, ..one }));
    assert!(!one.same_file_snapshot(&FileStat { mtime: 99, ..one }));
    assert!(one.same_file_snapshot(&one));
    assert_eq!(one.kind(), EntryKind::Directory);
    assert_eq!(regular(0o640, 7, 0).permissions(), 0o640);
}

#[test]
fn descriptors_are_private_regular_files() {
    assert_eq!(marker_path(ROOT), b"/state/root/descriptor.json");
    assert!(validate_marker_stat(&regular(0o600, 7, 100), 7).is_none());
    for stat in [
        directory(0o600, 7),
        regular(0o600, 8, 100),
        regular(0o644, 7, 100),
        regular(0o600, 7, 4_097),
        FileStat { nlink: 2, ..regular(0o600, 7, 100) },
    ] {
        assert!(validate_marker_stat(&stat, 7).is_some());
    }
    assert!(check_descriptor(DescriptorDecode::Supported, ROOT).is_ok());
    assert!(matches!(
        check_descriptor(DescriptorDecode::UnsupportedVersion { found: 9 }, ROOT),
        Err(EngineError::UnsupportedStoreVersion { expected: 1, found: 9, .. })
    ));
    let layout = validate_layout_entry_stat(&directory(0o700, 7), EntryKind::Directory, 7, 0o700, false);
    assert!(layout.is_none());
    assert!(
        validate_layout_entry_stat(&directory(0o755, 7), EntryKind::Directory, 7, 0o700, false)
            .is_some()
    );
    assert_eq!(status_of(MetadataState::Missing), StoreStatus::Uninitialized);
    assert_eq!(status_of(MetadataState::Ready), StoreStatus::Ready);
}

#[test]
fn ancestry_is_climbed_to_the_top() {
    let top = FileStat { ino: 1, ..directory(0o755, 0) };
    let middle = FileStat { ino: 2, ..top };
    let leaf = FileStat { ino: 3, ..top };
    assert_eq!(climb(&middle, &middle, &top), AncestryStep::Inside);
    assert_eq!(climb(&middle, &leaf, &middle), AncestryStep::Climb);
    assert_eq!(climb(&leaf, &top, &top), AncestryStep::Outside);
    assert!(directory_contains(&middle, &vec![leaf, middle, top, top], ROOT).unwrap());
    assert!(!directory_contains(&leaf, &vec![middle, top, top], ROOT).unwrap());
}

#[test]
fn a_descriptor_is_pinned_after_it_was_bound_three_times() {
    let stat = regular(0o600, 7, 10);
    let marker = b"/state/root/descriptor.json";
    let Progress::Next(PinStep::Open { attempt: 0, observed }) =
        pin_after_observation(0, Ok(stat), marker, 7)
    else {
        panic!("a present descriptor is opened");
    };
    let Progress::Next(PinStep::InspectOpened { attempt, observed }) =
        pin_after_open(0, observed, Ok(()), marker)
    else {
        panic!("an opened descriptor is inspected");
    };
    let Progress::Next(PinStep::Read { attempt, opened }) =
        pin_after_inspection(attempt, observed, Ok(stat), marker, 7)
    else {
        panic!("an inspected descriptor is read");
    };
    let Progress::Next(PinStep::BindRead { attempt, opened }) =
        pin_after_read(attempt, opened, Ok(10), marker)
    else {
        panic!("a read descriptor is bound");
    };
    let bind = |point, opened| {
        pin_after_binding(point, attempt, opened, Ok(stat), Ok(stat), marker, 7)
    };
    let Progress::Next(PinStep::Decode { opened, .. }) = bind(BindPoint::Read, opened) else {
        panic!("a bound descriptor is decoded");
    };
    let Progress::Next(PinStep::BindDecoded { opened, .. }) =
        pin_after_decoding(attempt, opened, DescriptorDecode::Supported, marker)
    else {
        panic!("a decoded descriptor is bound");
    };
    let Progress::Next(PinStep::ValidateLayout { opened, .. }) = bind(BindPoint::Decoded, opened) else {
        panic!("the layout follows");
    };
    let Progress::Next(PinStep::BindLast { opened, .. }) = pin_after_layout(attempt, opened, Ok(()))
    else {
        panic!("the descriptor is bound for the last time");
    };
    assert!(matches!(
        bind(BindPoint::Last, opened),
        Progress::Done(Some(pinned)) if pinned == stat
    ));
    assert!(revalidate_descriptor(&stat, Ok(stat), Ok(stat), marker, 7).is_ok());
    let changed = FileStat { ctime: 99, ..stat };
    assert!(revalidate_descriptor(&stat, Ok(changed), Ok(changed), marker, 7).is_err());
}

#[test]
fn changing_descriptors_are_read_three_times_at_most() {
    let marker = b"/state/root/descriptor.json";
    let stat = regular(0o600, 7, 10);
    for attempt in 0..2 {
        assert!(matches!(
            pin_after_open(attempt, stat, Err(failure(HostErrorKind::NotFound)), marker),
            Progress::Next(PinStep::Observe { attempt: next }) if next == attempt + 1
        ));
    }
    assert!(matches!(
        pin_after_open(2, stat, Err(failure(HostErrorKind::NotFound)), marker),
        Progress::Failed(_)
    ));
    assert!(matches!(
        pin_after_observation(0, Err(failure(HostErrorKind::NotFound)), marker, 7),
        Progress::Next(PinStep::ListRoot { attempt: 0 })
    ));
    assert!(matches!(pin_after_listing(0, Ok(true)), Progress::Done(None)));
    assert!(matches!(
        pin_after_listing(0, Ok(false)),
        Progress::Next(PinStep::ObserveAgain { attempt: 0 })
    ));
    let Progress::Failed(error) = pin_after_second_look(0, false, marker) else {
        panic!("entries without a descriptor are malformed");
    };
    assert_eq!(
        error.message(),
        "malformed store metadata /state/root/descriptor.json: descriptor.json is missing but the state root is not empty; the incompatible root was left unchanged; move or remove the entire root for a clean reset (no state, history, or cache import is available)"
    );
}

#[test]
fn layouts_hold_known_entries_only() {
    assert!(matches!(
        require_root_entry(Some(RootEntryKind::Lock), ROOT),
        Ok(RootEntryKind::Lock)
    ));
    assert!(require_root_entry(None, ROOT).is_err());
    assert!(check_observed_entry(false, Ok(directory(0o700, 7)), ROOT, 7).is_ok());
    assert!(check_observed_entry(true, Ok(regular(0o600, 7, 0)), ROOT, 7).is_ok());
    assert!(check_observed_entry(true, Ok(directory(0o700, 7)), ROOT, 7).is_err());
    let stat = directory(0o700, 7);
    let names = vec![b"a".to_vec()];
    let more = vec![b"a".to_vec(), b"b".to_vec()];
    assert!(check_layout_unchanged(&stat, &stat, &names, &names, ROOT).is_ok());
    assert!(check_layout_unchanged(&stat, &stat, &names, &more, ROOT).is_err());
    let changed = || check_layout_unchanged(&stat, &stat, &names, &more, ROOT);
    assert!(matches!(layout_after_look(0, changed(), ROOT), Progress::Next(1)));
    assert!(matches!(layout_after_look(31, changed(), ROOT), Progress::Failed(_)));
    assert!(matches!(layout_after_look(31, Ok(()), ROOT), Progress::Done(())));
}

#[test]
fn state_homes_hold_the_root_beneath_them() {
    assert_eq!(
        EngineConfig::root_beneath(b"/home/user/.local/state"),
        b"/home/user/.local/state/malm"
    );
    let config =
        EngineConfig::from_state_home(b"/home/user/.local/state", StoreAccess::ReadOnly, None);
    assert_eq!(config.unwrap().state_root(), b"/home/user/.local/state/malm");
}
