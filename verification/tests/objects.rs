//! Reading, checking and publishing stored objects.

use std::fmt::Debug;

use malm_engine::canonical::{CanonicalObjectKind, CanonicalObjectPublication};
use malm_engine::codec::{be_bytes, read_be};
use malm_engine::durability::{descriptors_left, staged_chunk_size};
use malm_engine::error::{
    ArchivePublicationError, CanonicalObjectIssue, EngineError, PackObjectIssue,
};
use malm_engine::limits::{
    MAX_FILE_OBJECT_BYTES, MAX_TREE_AGGREGATE_FILE_BYTES, MAX_TREE_DEPTH,
};
use malm_engine::object_publish::{
    archive_parts, archive_progress, require_archive_root, start_archive_publication,
    start_decoded_archive, start_pack_publication, start_publication, ContainerStep,
    PublishArchiveStep, PublishEncodedStep, PublishObjectStep, PublishPackStep,
};
use malm_engine::object_read::{
    read_after_binding, read_after_containers, read_after_inspection, read_after_last_check,
    read_after_observation, read_after_open, read_after_read, read_after_strict_read,
    read_after_sync, read_after_synced_binding, read_after_verdict, read_after_verified_binding,
    ReadStep,
};
use malm_engine::objects::{
    check_container_observation, check_opened_container, ensure_container_bound,
    ensure_object_bound, object_path, validate_object_stat, verify_canonical, ObjectFlavor,
    ObjectOperation, ObjectTarget, ObjectVerdict,
};
use malm_engine::pack_manifest::{
    decode_pack_manifest_object, encode_pack_manifest_object, settle_manifest,
    PackManifestMemberV1,
};
use malm_engine::pack_store::{
    check_manifest, check_member_length, check_opened_manifest, check_pack_digest,
    LoadPackStep,
};
use malm_engine::stat::{FileStat, HostErrorKind, HostFailure};
use malm_engine::store_steps::Progress;
use malm_engine::store_types::{PackObjectPublication, StoreAccess};
use malm_engine::tree_graph::{
    check_file_length, GraphEntry, GraphEntryKind, LoadRequest, TreeGraphLoader,
};

const DIGEST: &str = "sha256-0011";

fn regular(size: i64) -> FileStat {
    FileStat {
        dev: 1,
        ino: 2,
        mode: 0o100400,
        uid: 7,
        gid: 0,
        nlink: 1,
        size,
        mtime: 10,
        mtime_nsec: 11,
        ctime: 12,
        ctime_nsec: 13,
    }
}

fn container() -> FileStat {
    FileStat { mode: 0o040700, nlink: 2, ..regular(0) }
}

fn missing() -> HostFailure {
    HostFailure { kind: HostErrorKind::NotFound, detail: "not there".to_owned() }
}

fn other() -> HostFailure {
    HostFailure { kind: HostErrorKind::Other, detail: "input/output error".to_owned() }
}

fn target(flavor: ObjectFlavor) -> ObjectTarget {
    ObjectTarget {
        flavor,
        digest: DIGEST.to_owned(),
        path: object_path(b"/state/root", flavor, DIGEST),
    }
}

const FILE: ObjectFlavor = ObjectFlavor::Canonical(CanonicalObjectKind::File);

fn canonical_issue(error: EngineError) -> CanonicalObjectIssue {
    match error {
        EngineError::CanonicalObject { reason, .. } => reason,
        other => panic!("{other:?}"),
    }
}

#[test]
fn objects_lie_in_the_container_of_their_kind() {
    assert_eq!(target(FILE).path, b"/state/root/objects/files/sha256-0011");
    assert_eq!(target(ObjectFlavor::Pack).path, b"/state/root/objects/packs/sha256-0011");
    assert_eq!(ObjectFlavor::Canonical(CanonicalObjectKind::Symlink).directory(), "symlinks");
    assert_eq!(ObjectFlavor::Canonical(CanonicalObjectKind::Tree).directory(), "trees");
    assert_eq!(FILE.maximum_bytes(), MAX_FILE_OBJECT_BYTES);
}

#[test]
fn stored_objects_are_private_single_files() {
    let file = target(FILE);
    assert!(validate_object_stat(&file, &regular(5), 1, 7).is_ok());
    let issues: Vec<String> = [
        container(),
        FileStat { uid: 8, ..regular(5) },
        FileStat { mode: 0o100600, ..regular(5) },
        FileStat { nlink: 2, ..regular(5) },
        regular(MAX_FILE_OBJECT_BYTES as i64 + 1),
    ]
    .iter()
    .map(|stat| canonical_issue(validate_object_stat(&file, stat, 1, 7).unwrap_err()).message())
    .collect();
    assert_eq!(
        issues,
        [
            "object is not a regular file",
            "owner uid must be 7, found 8",
            "mode must be 0400, found 0600",
            "link count must be 1, found 2",
            "object is 536870977 bytes; limit is 536870976",
        ]
    );
    let negative = validate_object_stat(&file, &regular(-1), 1, 7).unwrap_err();
    assert!(matches!(
        canonical_issue(negative),
        CanonicalObjectIssue::ObjectTooLarge { actual: u64::MAX, .. }
    ));
    let pack = validate_object_stat(&target(ObjectFlavor::Pack), &regular(-1), 1, 7);
    assert!(matches!(
        pack,
        Err(EngineError::PackObject {
            reason: PackObjectIssue::ObjectTooLarge { actual: 0, .. },
            ..
        })
    ));
}

#[test]
fn containers_stay_bound_to_what_was_opened() {
    let file = target(FILE);
    let stat = container();
    let moved = FileStat { ino: 9, ..stat };
    assert!(check_opened_container(&file, &stat, Ok(stat), 7).is_ok());
    assert!(check_opened_container(&file, &stat, Ok(moved), 7).is_err());
    assert!(ensure_container_bound(&file, Ok(stat), Ok(stat), 7).is_ok());
    for bound in [Ok(moved), Err(missing())] {
        let error = ensure_container_bound(&file, Ok(stat), bound, 7).unwrap_err();
        assert!(matches!(canonical_issue(error), CanonicalObjectIssue::ObservationChanged));
    }
    let operation = ObjectOperation::InspectContainer;
    let error = check_container_observation(&file, operation, Err(other()), 7).unwrap_err();
    assert_eq!(
        error.message(),
        "inspect canonical-object container /state/root/objects/files/sha256-0011: input/output error"
    );
}

#[test]
fn bound_objects_are_sound() {
    let file = target(FILE);
    assert_eq!(ensure_object_bound(&file, Ok(regular(5)), Ok(regular(5)), 7).unwrap(), regular(5));
    let replaced = FileStat { ino: 9, ..regular(5) };
    assert!(ensure_object_bound(&file, Ok(regular(5)), Ok(replaced), 7).is_err());
    let shared = FileStat { nlink: 2, ..regular(5) };
    assert!(ensure_object_bound(&file, Ok(shared), Ok(shared), 7).is_err());
}

#[test]
fn verdicts_become_object_issues() {
    let file = target(FILE);
    assert!(verify_canonical(&file, ObjectVerdict::Verified).is_ok());
    let error = verify_canonical(&file, ObjectVerdict::TooLarge { limit: 4, actual: 9 });
    assert!(matches!(
        canonical_issue(error.unwrap_err()),
        CanonicalObjectIssue::ObjectTooLarge { limit: 4, actual: 9 }
    ));
    let error = verify_canonical(&file, ObjectVerdict::DigestMismatch { actual: "x".to_owned() });
    assert!(matches!(
        canonical_issue(error.unwrap_err()),
        CanonicalObjectIssue::DigestMismatch { actual } if actual == "x"
    ));
    let error = verify_canonical(&file, ObjectVerdict::Invalid { detail: "y".to_owned() });
    assert!(matches!(
        canonical_issue(error.unwrap_err()),
        CanonicalObjectIssue::InvalidEncoding { detail } if detail == "y"
    ));
}

#[test]
fn objects_are_judged_between_two_bindings() {
    let file = target(FILE);
    let stat = regular(5);
    assert!(matches!(
        read_after_observation(0, Err(missing()), &file, 7),
        Progress::Failed(EngineError::CanonicalObject { reason: CanonicalObjectIssue::Missing, .. })
    ));
    let Progress::Next(ReadStep::Open { attempt, observed }) =
        read_after_observation(0, Ok(stat), &file, 7)
    else {
        panic!("a sound object is opened");
    };
    let Progress::Next(ReadStep::InspectOpened { attempt, observed }) =
        read_after_open(attempt, observed, Ok(()), &file)
    else {
        panic!("an opened object is inspected");
    };
    let Progress::Next(ReadStep::Read { attempt, opened }) =
        read_after_inspection(attempt, observed, Ok(stat), &file, 7)
    else {
        panic!("an inspected object is read");
    };
    let Progress::Next(ReadStep::BindRead { attempt, opened, length }) =
        read_after_read(attempt, opened, Ok(5), &file)
    else {
        panic!("a read object is bound");
    };
    let Progress::Next(ReadStep::Verify { attempt, opened }) =
        read_after_binding(attempt, opened, length, Ok(stat), Ok(stat), &file, 7)
    else {
        panic!("bound bytes are judged");
    };
    let Progress::Next(ReadStep::BindVerified { attempt, opened, problem: None }) =
        read_after_verdict(attempt, opened, ObjectVerdict::Verified, &file)
    else {
        panic!("judged bytes are bound");
    };
    let Progress::Next(ReadStep::RevalidateContainers { attempt, opened, problem: None }) =
        read_after_verified_binding(attempt, opened, None, Ok(stat), Ok(stat), &file, 7)
    else {
        panic!("containers are checked");
    };
    let Progress::Next(ReadStep::SyncObject { attempt, opened }) =
        read_after_containers(attempt, opened, None, Ok(()), true)
    else {
        panic!("the object is made durable");
    };
    let Progress::Next(ReadStep::SyncContainer { attempt, opened }) =
        read_after_sync(attempt, opened, false, Ok(()))
    else {
        panic!("its name is made durable");
    };
    let Progress::Next(ReadStep::BindSynced { attempt, opened }) =
        read_after_sync(attempt, opened, true, Ok(()))
    else {
        panic!("it is bound again");
    };
    assert!(matches!(
        read_after_synced_binding(attempt, opened, Ok(stat), Ok(stat), &file, 7),
        Progress::Next(ReadStep::RevalidateLast { attempt: 0 })
    ));
    assert!(matches!(read_after_last_check(Ok(())), Progress::Done(())));
    assert!(matches!(
        read_after_containers(0, stat, None, Ok(()), false),
        Progress::Next(ReadStep::RevalidateLast { attempt: 0 })
    ));
    let problem = file.error(CanonicalObjectIssue::ObservationChanged);
    assert!(matches!(
        read_after_containers(0, stat, Some(problem), Ok(()), true),
        Progress::Failed(_)
    ));
    assert!(matches!(
        read_after_strict_read(0, stat, 5, ObjectVerdict::Verified, &file),
        Progress::Next(ReadStep::BindRead { length: 5, .. })
    ));
}

#[test]
fn changing_objects_are_read_three_times_at_most() {
    let file = target(FILE);
    let changed = FileStat { mtime: 99, ..regular(5) };
    for attempt in 0..2 {
        assert!(matches!(
            read_after_inspection(attempt, regular(5), Ok(changed), &file, 7),
            Progress::Next(ReadStep::Observe { attempt: next }) if next == attempt + 1
        ));
    }
    assert!(matches!(
        read_after_inspection(2, regular(5), Ok(changed), &file, 7),
        Progress::Failed(EngineError::CanonicalObject {
            reason: CanonicalObjectIssue::ObservationChanged,
            ..
        })
    ));
    assert!(matches!(
        read_after_inspection(0, regular(5), Ok(changed), &target(ObjectFlavor::Pack), 7),
        Progress::Next(ReadStep::Read { attempt: 0, .. })
    ));
    let long = MAX_FILE_OBJECT_BYTES + 1;
    assert!(matches!(
        read_after_binding(0, regular(5), long, Ok(regular(5)), Ok(regular(5)), &file, 7),
        Progress::Next(ReadStep::BindVerified { problem: Some(_), .. })
    ));
}

fn follow<S: Debug, D: Debug>(
    start: Progress<S, D>,
    advance: impl Fn(S, bool) -> Progress<S, D>,
    answer: impl Fn(&str) -> bool,
) -> (Vec<String>, Result<D, EngineError>) {
    let mut steps = Vec::new();
    let mut progress = start;
    loop {
        match progress {
            Progress::Next(step) => {
                let name = format!("{step:?}");
                let yes = answer(&name);
                steps.push(name);
                progress = advance(step, yes);
            }
            Progress::Done(result) => return (steps, Ok(result)),
            Progress::Failed(error) => return (steps, Err(error)),
        }
    }
}

#[test]
fn containers_are_created_on_request_only() {
    let absent = |step: &str| step != "Observe";
    let (steps, found) = follow(
        Progress::Next(ContainerStep::Observe),
        |step: ContainerStep, yes| step.after(Ok(yes), false),
        absent,
    );
    assert_eq!(steps, ["Observe"]);
    assert!(!found.unwrap());
    let (steps, found) = follow(
        Progress::Next(ContainerStep::Observe),
        |step: ContainerStep, yes| step.after(Ok(yes), true),
        absent,
    );
    assert_eq!(
        steps,
        ["Observe", "Create", "ObserveCreated", "Open", "InspectOpened", "SyncContainer", "SyncParent"]
    );
    assert!(found.unwrap());
}

#[test]
fn objects_are_durable_before_they_are_named() {
    let (steps, published) = follow(
        Progress::Next(PublishObjectStep::Verify),
        |step: PublishObjectStep, yes| step.after(Ok(yes)),
        |step| step != "LookUp",
    );
    assert_eq!(
        steps,
        [
            "Verify", "RevalidateContainers", "LookUp", "Create", "Restrict", "Write", "Flush",
            "Sync", "InspectStaged", "RevalidateBeforeLink", "RevalidateBeforeLinkAgain", "Link",
            "BindPublished", "SyncPublished", "SyncContainer", "RevalidateAfterLink",
        ]
    );
    assert_eq!(published.unwrap(), CanonicalObjectPublication::Published);
    let (steps, published) = follow(
        Progress::Next(PublishObjectStep::Verify),
        |step: PublishObjectStep, yes| step.after(Ok(yes)),
        |step| step != "LookUp" && step != "Link",
    );
    assert_eq!(steps.last().unwrap(), "ReadExisting");
    assert_eq!(published.unwrap(), CanonicalObjectPublication::Reused);
}

#[test]
fn reused_objects_were_read_and_verified() {
    let (steps, published) = follow(
        Progress::Next(PublishObjectStep::Verify),
        |step: PublishObjectStep, yes| step.after(Ok(yes)),
        |_| true,
    );
    assert_eq!(steps, ["Verify", "RevalidateContainers", "LookUp", "ReadExisting"]);
    assert_eq!(published.unwrap(), CanonicalObjectPublication::Reused);
    let corrupt = target(FILE).error(CanonicalObjectIssue::DigestMismatch {
        actual: "sha256-other".to_owned(),
    });
    assert!(matches!(
        PublishObjectStep::ReadExisting.after(Err(corrupt)),
        Progress::Failed(EngineError::CanonicalObject { .. })
    ));
}

#[test]
fn publications_hold_the_publication_lock() {
    let advance = |step: PublishEncodedStep, yes| step.after(Ok(yes));
    let (steps, published) =
        follow(start_publication(StoreAccess::ReadWrite), advance, |_| true);
    assert_eq!(
        steps,
        [
            "Verify", "OpenStore", "RevalidateStore", "Lock", "RevalidateLock", "OpenContainers",
            "Publish", "RevalidateLockPublished",
        ]
    );
    assert_eq!(published.unwrap(), CanonicalObjectPublication::Published);
    assert!(matches!(
        start_publication(StoreAccess::ReadOnly),
        Progress::Failed(EngineError::ReadOnlyStore)
    ));
}

#[test]
fn archive_roots_follow_their_parts() {
    let texts = |list: &[&str]| list.iter().map(|text| (*text).to_owned()).collect::<Vec<_>>();
    let parts = archive_parts(
        &texts(&["f1", "f2"]),
        &texts(&["s1"]),
        &texts(&["t1", "root"]),
        "root",
    );
    let names: Vec<(CanonicalObjectKind, &str)> =
        parts.iter().map(|part| (part.kind, part.digest.as_str())).collect();
    assert_eq!(
        names,
        [
            (CanonicalObjectKind::File, "f1"),
            (CanonicalObjectKind::File, "f2"),
            (CanonicalObjectKind::Symlink, "s1"),
            (CanonicalObjectKind::Tree, "t1"),
        ]
    );
    let advance = |step: PublishArchiveStep, yes| step.after(Ok(yes));
    let (steps, done) = follow(start_archive_publication(StoreAccess::ReadWrite), advance, |_| true);
    assert!(done.is_ok());
    let at = |name: &str| steps.iter().position(|step| step == name).unwrap();
    assert!(at("PublishParts") < at("RevalidateBeforeRoot"));
    assert!(at("RevalidateBeforeRoot") < at("PublishRoot"));
    assert!(require_archive_root("a", "a").is_ok());
    assert!(matches!(
        require_archive_root("a", "b"),
        Err(ArchivePublicationError::UnexpectedRoot { expected, actual })
            if expected == "a" && actual == "b"
    ));
}

#[test]
fn unreviewed_archive_is_not_published() {
    assert!(matches!(
        start_decoded_archive(Ok("a"), Some("a"), StoreAccess::ReadWrite),
        Progress::Next(PublishArchiveStep::OpenStore)
    ));
    assert!(matches!(
        start_decoded_archive(Ok("a"), None, StoreAccess::ReadWrite),
        Progress::Next(PublishArchiveStep::OpenStore)
    ));
    assert!(matches!(
        start_decoded_archive(Ok("b"), Some("a"), StoreAccess::ReadOnly),
        Progress::Failed(ArchivePublicationError::UnexpectedRoot { expected, actual })
            if expected == "a" && actual == "b"
    ));
    assert!(matches!(
        start_decoded_archive(Err("truncated".to_owned()), Some("a"), StoreAccess::ReadWrite),
        Progress::Failed(ArchivePublicationError::Decode { detail }) if detail == "truncated"
    ));
    assert!(matches!(
        start_decoded_archive(Ok("a"), Some("a"), StoreAccess::ReadOnly),
        Progress::Failed(ArchivePublicationError::Store { source: EngineError::ReadOnlyStore })
    ));
    assert!(matches!(
        archive_progress(PublishArchiveStep::RevalidateStoreLast.after(Ok(true))),
        Progress::Done(())
    ));
    assert!(matches!(
        archive_progress(PublishArchiveStep::PublishParts.after(Err(EngineError::ReadOnlyStore))),
        Progress::Failed(ArchivePublicationError::Store { source: EngineError::ReadOnlyStore })
    ));
}

#[test]
fn pack_members_precede_their_manifest() {
    let absent = |step: &str| step != "LookUpPack" && step != "LookUpManifest";
    let (steps, published) = follow(
        start_pack_publication(StoreAccess::ReadWrite, false),
        |step: PublishPackStep, yes| step.after(Ok(yes), false),
        absent,
    );
    assert_eq!(
        steps,
        [
            "CheckContent", "OpenStore", "RevalidateStore", "Lock", "RevalidateLock",
            "OpenContainers", "RevalidateContainers", "LookUpPack", "LookUpManifest",
            "PublishMembers", "CreateManifest", "Restrict", "Write", "Flush", "Sync",
            "RevalidateBeforeLink", "RevalidateBeforeLinkAgain", "Link", "SyncManifests",
            "RevalidateAfterLink", "RevalidateLockPublished",
        ]
    );
    assert_eq!(published.unwrap(), PackObjectPublication::Published);
    let (steps, published) = follow(
        start_pack_publication(StoreAccess::ReadWrite, true),
        |step: PublishPackStep, yes| step.after(Ok(yes), true),
        |_| true,
    );
    assert_eq!(steps[steps.len() - 2..], ["SyncExisting", "RevalidateLockReused"]);
    assert!(!steps.contains(&"ReadExisting".to_owned()));
    assert_eq!(published.unwrap(), PackObjectPublication::Reused);
}

#[test]
fn loaded_packs_have_their_digest() {
    let pack = target(ObjectFlavor::Pack);
    let (steps, loaded) = follow(
        Progress::Next(LoadPackStep::OpenStore),
        |step: LoadPackStep, yes| step.after(Ok(yes), &target(ObjectFlavor::Pack)),
        |_| true,
    );
    assert_eq!(steps.last().unwrap(), "CheckDigest");
    assert!(loaded.is_ok());
    assert!(matches!(
        LoadPackStep::OpenContainers.after(Ok(false), &pack),
        Progress::Failed(EngineError::PackObject { reason: PackObjectIssue::Missing, .. })
    ));
    assert!(check_pack_digest(&pack, DIGEST).is_ok());
    assert!(matches!(
        check_pack_digest(&pack, "sha256-ff"),
        Err(EngineError::PackObject { reason: PackObjectIssue::DigestMismatch { actual }, .. })
            if actual == "sha256-ff"
    ));
    assert!(check_member_length(&pack, "a", 3, 3).is_ok());
    assert!(check_member_length(&pack, "a", 3, 4).is_err());
    assert!(check_manifest(&pack, &regular(5), 7).is_ok());
    assert!(check_manifest(&pack, &FileStat { uid: 8, ..regular(5) }, 7).is_err());
    assert!(check_opened_manifest(&pack, &regular(5), &regular(5), 7).is_ok());
    let moved = FileStat { ino: 9, ..regular(5) };
    assert!(check_opened_manifest(&pack, &regular(5), &moved, 7).is_err());
}

fn member(path: &str, blob: &str, byte_len: u64) -> PackManifestMemberV1 {
    PackManifestMemberV1 { path: path.to_owned(), blob: blob.to_owned(), byte_len }
}

#[test]
fn manifests_round_trip() {
    let members = vec![member("a/b", "sha256-1", 300), member("é", "sha256-2", 0)];
    let bytes = encode_pack_manifest_object(&members);
    let reading = decode_pack_manifest_object(&bytes);
    assert!(reading.problem.is_none());
    let read = settle_manifest(reading, None).unwrap();
    assert_eq!(format!("{read:?}"), format!("{members:?}"));
    assert_eq!(encode_pack_manifest_object(&read), bytes);
}

#[test]
fn malformed_manifests_are_refused() {
    let bytes = encode_pack_manifest_object(&vec![member("a", "sha256-1", 1)]);
    for length in 0..bytes.len() {
        let reading = decode_pack_manifest_object(&bytes[..length]);
        assert!(reading.problem.is_some(), "{length} bytes");
    }
    let mut longer = bytes.clone();
    longer.push(0);
    assert!(settle_manifest(decode_pack_manifest_object(&longer), None).is_err());
    let reading = decode_pack_manifest_object(&bytes);
    assert!(settle_manifest(reading, Some("invalid path".to_owned())).is_err());
}

#[test]
fn integers_are_big_endian() {
    assert_eq!(be_bytes(0x0102_0304, 4), [1, 2, 3, 4]);
    assert_eq!(be_bytes(258, 2), [1, 2]);
    assert_eq!(read_be(&[9, 1, 2, 3, 4], 1, 4), 0x0102_0304);
    for value in [0, 1, 255, 256, 65_535, u64::MAX] {
        assert_eq!(read_be(&be_bytes(value, 8), 0, 8), value);
    }
}

#[test]
fn staged_entries_leave_descriptors_for_others() {
    assert_eq!(staged_chunk_size(None), 512);
    assert_eq!(staged_chunk_size(Some(1_000_000)), 512);
    assert_eq!(staged_chunk_size(Some(0)), 1);
    assert_eq!(staged_chunk_size(Some(64)), 1);
    assert_eq!(staged_chunk_size(Some(100)), descriptors_left(100) as usize);
}

fn entry(name: &str, kind: GraphEntryKind) -> GraphEntry {
    GraphEntry { name: name.to_owned(), kind }
}

fn file_entry(name: &str, digest: &str, byte_len: u64) -> GraphEntry {
    entry(name, GraphEntryKind::File { digest: digest.to_owned(), byte_len })
}

fn directory_entry(name: &str, digest: &str) -> GraphEntry {
    entry(name, GraphEntryKind::Directory { digest: digest.to_owned() })
}

#[test]
fn tree_graphs_load_each_object_once() {
    let mut loader = TreeGraphLoader::new("root".to_owned());
    let mut asked = Vec::new();
    loop {
        let (next, request) = loader.next();
        asked.push(format!("{request:?}"));
        loader = match request {
            LoadRequest::Tree { digest } => {
                let entries = if digest == "root" {
                    vec![
                        file_entry("a", "f", 3),
                        directory_entry("d", "inner"),
                        entry("l", GraphEntryKind::SafeRelativeSymlink { digest: "s".to_owned() }),
                    ]
                } else {
                    vec![file_entry("again", "f", 3)]
                };
                next.supply_tree(digest, entries)
            }
            LoadRequest::File { .. } | LoadRequest::Symlink { .. } => next,
            LoadRequest::Finished => break,
            LoadRequest::Failed { detail } => panic!("{detail}"),
        };
    }
    assert_eq!(
        asked,
        [
            "Tree { digest: \"root\" }",
            "File { digest: \"f\", byte_len: 3 }",
            "Symlink { digest: \"s\" }",
            "Tree { digest: \"inner\" }",
            "Finished",
        ]
    );
}

fn first_failure(mut loader: TreeGraphLoader, entries: impl Fn(&str) -> Vec<GraphEntry>) -> String {
    loop {
        let (next, request) = loader.next();
        loader = match request {
            LoadRequest::Tree { digest } => {
                let list = entries(&digest);
                next.supply_tree(digest, list)
            }
            LoadRequest::File { .. } | LoadRequest::Symlink { .. } => next,
            LoadRequest::Finished => panic!("the graph is within its limits"),
            LoadRequest::Failed { detail } => return detail,
        };
    }
}

#[test]
fn tree_graphs_stay_within_their_limits() {
    let deep = first_failure(TreeGraphLoader::new("0".to_owned()), |digest| {
        let depth: usize = digest.parse().unwrap();
        vec![directory_entry("d", &(depth + 1).to_string())]
    });
    assert_eq!(deep, "tree depth exceeds the canonical graph limit while loading");
    let long = first_failure(TreeGraphLoader::new("0".to_owned()), |digest| {
        let depth: usize = digest.parse().unwrap();
        vec![directory_entry(&"n".repeat(200), &(depth + 1).to_string())]
    });
    assert_eq!(long, "tree path bytes exceed the canonical graph limit while loading");
    let large = first_failure(TreeGraphLoader::new("0".to_owned()), |_| {
        vec![
            file_entry("a", "f", MAX_TREE_AGGREGATE_FILE_BYTES),
            file_entry("b", "g", 1),
        ]
    });
    assert_eq!(large, "logical tree file bytes exceed the canonical graph limit while loading");
    let overflowing = first_failure(TreeGraphLoader::new("0".to_owned()), |_| {
        vec![file_entry("a", "f", 1), file_entry("b", "g", u64::MAX)]
    });
    assert_eq!(overflowing, "logical tree file bytes overflow while loading");
    let mut loader = TreeGraphLoader::new("0".to_owned());
    let mut asked = Vec::new();
    let error = loop {
        let (next, request) = loader.next_object(b"/state", "0");
        loader = match request {
            Ok(LoadRequest::Tree { digest }) => {
                asked.push(digest.clone());
                let depth: usize = digest.parse().unwrap();
                next.supply_tree(digest, vec![directory_entry("d", &(depth + 1).to_string())])
            }
            Ok(other) => panic!("{other:?}"),
            Err(error) => break error,
        };
    };
    assert_eq!(asked.len(), MAX_TREE_DEPTH + 1);
    assert!(matches!(
        error,
        EngineError::CanonicalObject {
            kind: CanonicalObjectKind::Tree,
            digest,
            path,
            reason: CanonicalObjectIssue::InvalidEncoding { detail },
        } if digest == "0" && path == b"/state/objects/trees/0" && detail.contains("depth")
    ));
    assert!(check_file_length(&target(FILE), 3, 3).is_ok());
    assert!(check_file_length(&target(FILE), 3, 4).is_err());
}
