//! Reading packs from Git objects, and resolving selectors.

use malm_engine::git::acquire::{
    find_usable_manifest, narrow_to_capture_roots, DeclaredCapture,
};
use malm_engine::git::config::{
    max_git_acquisition_timeout, GitAcquisitionConfig, GitAcquisitionConfigError,
    MAX_GIT_TRANSFER_BYTES,
};
use malm_engine::git::issue::GitAcquisitionIssue;
use malm_engine::git::object::{GitObjectFormat, GitObjectKind};
use malm_engine::git::reader::{read_pack, PackSubdir, PathClass, ReadStep};
use malm_engine::git::reply::Batch;
use malm_engine::git::selector::parse_selector_output;
use malm_engine::git::tree::{
    TraversalBudget, MAX_GIT_TRAVERSAL_ENTRIES, MAX_TOTAL_RAW_TREE_BYTES,
};
use malm_engine::limits::MAX_PACK_MANIFEST_BYTES;
use malm_engine::ports::GitPackFile;
use malm_engine::time::Duration;

const MINIMAL_PACK: &[u8] = b"pack \"example\" {\n}\n";

fn git_path() -> Vec<u8> {
    b"/usr/bin/git".to_vec()
}

#[test]
fn command_configuration_requires_explicit_bounded_inputs() {
    assert!(matches!(
        GitAcquisitionConfig::new(b"git".to_vec()),
        Err(GitAcquisitionConfigError::ExecutableMustBeAbsolute { .. })
    ));
    assert!(matches!(
        GitAcquisitionConfig::with_timeout(git_path(), Duration::from_secs(0)),
        Err(GitAcquisitionConfigError::TimeoutMustBePositive)
    ));
    assert!(matches!(
        GitAcquisitionConfig::with_timeout(
            git_path(),
            Duration::from_secs(max_git_acquisition_timeout().as_secs() + 1)
        ),
        Err(GitAcquisitionConfigError::TimeoutTooLarge { .. })
    ));
    let config = GitAcquisitionConfig::with_timeout(git_path(), Duration::from_millis(250)).unwrap();
    assert_eq!(config.executable(), b"/usr/bin/git");
    assert_eq!(config.timeout(), Duration::from_millis(250));
    assert_eq!(config.transfer_limit(), MAX_GIT_TRANSFER_BYTES);
    assert!(matches!(
        GitAcquisitionConfig::with_limits(git_path(), Duration::from_millis(250), 0),
        Err(GitAcquisitionConfigError::TransferLimitMustBePositive)
    ));
    assert!(matches!(
        GitAcquisitionConfig::with_limits(
            git_path(),
            Duration::from_millis(250),
            MAX_GIT_TRANSFER_BYTES + 1
        ),
        Err(GitAcquisitionConfigError::TransferLimitTooLarge { .. })
    ));
    let config =
        GitAcquisitionConfig::with_limits(git_path(), Duration::from_millis(250), 64 * 1024)
            .unwrap();
    assert_eq!(config.transfer_limit(), 64 * 1024);
}

fn classify(path: &str) -> PathClass {
    let reserved = path
        .split('/')
        .any(|piece| piece == ".git" || piece == ".malm-lock.tmp");
    if reserved {
        PathClass::Reserved
    } else {
        PathClass::Content
    }
}

fn read_pack_stream(
    stream: Vec<u8>,
    commit_oid: &str,
) -> Result<Vec<GitPackFile>, GitAcquisitionIssue> {
    let mut batch = Batch::new(stream, GitObjectFormat::Sha1);
    let mut step = read_pack(GitObjectFormat::Sha1, commit_oid.to_owned(), PackSubdir::Root);
    loop {
        step = match step {
            ReadStep::Object(wait) => {
                let bytes = batch.object(wait.oid(), wait.kind(), wait.limit())?;
                wait.deliver(bytes)?
            }
            ReadStep::Classify(wait) => {
                let class = classify(wait.path());
                wait.answer(class)?
            }
            ReadStep::Finished(files) => return Ok(files),
        };
    }
}

fn frame(output: &mut Vec<u8>, oid: &str, kind: &str, bytes: &[u8]) {
    output.extend_from_slice(format!("{oid} {kind} {}\n", bytes.len()).as_bytes());
    output.extend_from_slice(bytes);
    output.push(b'\n');
}

fn tree_bytes(entries: &[(&[u8], &[u8], u8)]) -> Vec<u8> {
    let mut tree = Vec::new();
    for (mode, name, oid_byte) in entries {
        tree.extend_from_slice(mode);
        tree.push(b' ');
        tree.extend_from_slice(name);
        tree.push(0);
        tree.extend_from_slice(&[*oid_byte; 20]);
    }
    tree
}

#[test]
fn batch_parser_reads_exact_commit_tree_and_blob_bytes() {
    let commit_oid = "11".repeat(20);
    let tree_oid = "22".repeat(20);
    let manifest_oid = "33".repeat(20);
    let data_oid = "44".repeat(20);
    let commit = format!(
        "tree {tree_oid}\nauthor Test <test@example.com> 0 +0000\ncommitter Test <test@example.com> 0 +0000\n\nmessage\n"
    );
    let tree = tree_bytes(&[
        (b"100755", b"data.bin", 0x44),
        (b"100644", b"malm-pack.kdl", 0x33),
    ]);
    let data = [0_u8, 1, 2, 255];
    let mut stream = Vec::new();
    frame(&mut stream, &commit_oid, "commit", commit.as_bytes());
    frame(&mut stream, &tree_oid, "tree", &tree);
    frame(&mut stream, &data_oid, "blob", &data);
    frame(&mut stream, &manifest_oid, "blob", MINIMAL_PACK);

    let files = read_pack_stream(stream, &commit_oid).unwrap();

    assert_eq!(files.len(), 2);
    assert_eq!(files[0].path(), "data.bin");
    assert_eq!(files[0].bytes(), data);
    assert_eq!(files[0].mode(), 0o755);
    assert_eq!(files[1].path(), "malm-pack.kdl");
    assert_eq!(files[1].bytes(), MINIMAL_PACK);
    assert_eq!(files[1].mode(), 0o644);
}

fn paths(files: &[GitPackFile]) -> Vec<&str> {
    files.iter().map(GitPackFile::path).collect()
}

fn covering(roots: &[&str], files: &[GitPackFile]) -> Option<DeclaredCapture> {
    let covers = files
        .iter()
        .map(|file| {
            file.path() == "malm-pack.kdl"
                || roots.iter().any(|root| {
                    file.path() == *root || file.path().starts_with(&format!("{root}/"))
                })
        })
        .collect();
    Some(DeclaredCapture { declares_roots: !roots.is_empty(), covers })
}

fn file(path: &str, bytes: &[u8]) -> GitPackFile {
    GitPackFile::new(path.to_owned(), bytes.to_vec())
}

#[test]
fn declared_capture_roots_narrow_an_acquired_tree_and_keep_the_lock() {
    let files = vec![
        file("malm-pack.kdl", MINIMAL_PACK),
        file("malm.lock", b"lock bytes"),
        file("captured/inside.conf", b"inside\n"),
        file("kept.conf", b"kept\n"),
        file("uncaptured.md", b"outside\n"),
        file("elsewhere/deep/skipped.bin", b"outside\n"),
    ];
    assert_eq!(find_usable_manifest(&files), Some(0));
    let declared = covering(&["captured", "kept.conf"], &files);
    assert_eq!(
        paths(&narrow_to_capture_roots(files, declared)),
        ["malm-pack.kdl", "malm.lock", "captured/inside.conf", "kept.conf"]
    );
}

#[test]
fn a_tree_narrows_nothing_without_declared_roots_or_a_usable_manifest() {
    let undeclared = vec![file("malm-pack.kdl", MINIMAL_PACK), file("anything.md", b"kept\n")];
    let declared = covering(&[], &undeclared);
    assert_eq!(
        paths(&narrow_to_capture_roots(undeclared, declared)),
        ["malm-pack.kdl", "anything.md"]
    );

    let malformed = vec![file("malm-pack.kdl", b"not a manifest"), file("anything.md", b"kept\n")];
    assert_eq!(
        paths(&narrow_to_capture_roots(malformed, None)),
        ["malm-pack.kdl", "anything.md"]
    );

    let mut oversized = b"captured".to_vec();
    oversized.resize(MAX_PACK_MANIFEST_BYTES + 1, b'\n');
    let oversized = vec![file("malm-pack.kdl", &oversized), file("anything.md", b"kept\n")];
    assert_eq!(find_usable_manifest(&oversized), None);
    assert_eq!(
        paths(&narrow_to_capture_roots(oversized, None)),
        ["malm-pack.kdl", "anything.md"]
    );

    let absent = vec![file("anything.md", b"kept\n")];
    assert_eq!(find_usable_manifest(&absent), None);
    assert_eq!(paths(&narrow_to_capture_roots(absent, None)), ["anything.md"]);
}

#[test]
fn reserved_tree_is_pruned_before_symlink_validation() {
    let commit_oid = "11".repeat(20);
    let tree_oid = "22".repeat(20);
    let manifest_oid = "33".repeat(20);
    let lock_oid = "44".repeat(20);
    let commit = format!("tree {tree_oid}\n\nmessage\n");
    let tree = tree_bytes(&[
        (b"120000", b".git", 0x55),
        (b"120000", b".malm-lock.tmp", 0x66),
        (b"100644", b"malm-pack.kdl", 0x33),
        (b"100644", b"malm.lock", 0x44),
    ]);
    let mut stream = Vec::new();
    frame(&mut stream, &commit_oid, "commit", commit.as_bytes());
    frame(&mut stream, &tree_oid, "tree", &tree);
    frame(&mut stream, &manifest_oid, "blob", MINIMAL_PACK);
    frame(&mut stream, &lock_oid, "blob", b"canonical lock bytes");

    let files = read_pack_stream(stream, &commit_oid).unwrap();

    assert_eq!(files.len(), 2);
    assert_eq!(files[0].path(), "malm-pack.kdl");
    assert_eq!(files[1].path(), "malm.lock");
}

#[test]
fn exact_object_must_itself_be_a_commit() {
    let oid = "11".repeat(20);
    let mut stream = Vec::new();
    frame(&mut stream, &oid, "tag", b"object data");

    assert!(matches!(
        read_pack_stream(stream, &oid),
        Err(GitAcquisitionIssue::UnexpectedObjectType {
            expected: GitObjectKind::Commit,
            actual,
            ..
        }) if actual == "tag"
    ));
}

#[test]
fn selected_symlinks_and_non_utf8_names_are_rejected() {
    let commit_oid = "11".repeat(20);
    let tree_oid = "22".repeat(20);
    let commit = format!("tree {tree_oid}\n\nmessage\n");
    let symlink_tree = tree_bytes(&[(b"120000", b"linked", 0x55)]);
    let mut symlink_stream = Vec::new();
    frame(&mut symlink_stream, &commit_oid, "commit", commit.as_bytes());
    frame(&mut symlink_stream, &tree_oid, "tree", &symlink_tree);
    assert!(matches!(
        read_pack_stream(symlink_stream, &commit_oid),
        Err(GitAcquisitionIssue::SymbolicLink { path }) if path.as_str() == "linked"
    ));

    let non_utf8_tree = tree_bytes(&[(b"100644", &[b'n', 0xff], 0x66)]);
    let mut non_utf8_stream = Vec::new();
    frame(&mut non_utf8_stream, &commit_oid, "commit", commit.as_bytes());
    frame(&mut non_utf8_stream, &tree_oid, "tree", &non_utf8_tree);
    assert!(matches!(
        read_pack_stream(non_utf8_stream, &commit_oid),
        Err(GitAcquisitionIssue::NonUtf8Name { parent: None })
    ));
}

#[test]
fn traversal_budget_is_shared_and_charged_before_more_entries() {
    let mut raw = TraversalBudget {
        entries: 0,
        raw_tree_bytes: MAX_TOTAL_RAW_TREE_BYTES,
    };
    assert!(matches!(
        raw.charge_tree(1),
        Err(GitAcquisitionIssue::RawTreesTooLarge {
            limit: MAX_TOTAL_RAW_TREE_BYTES,
            ..
        })
    ));

    let mut entries = TraversalBudget {
        entries: MAX_GIT_TRAVERSAL_ENTRIES,
        raw_tree_bytes: 0,
    };
    assert!(matches!(
        entries.charge_entry(),
        Err(GitAcquisitionIssue::TraversalLimitExceeded {
            limit: MAX_GIT_TRAVERSAL_ENTRIES
        })
    ));
}

#[test]
fn selector_parser_accepts_one_exact_full_oid_record() {
    let selector = "refs/heads/main";
    let sha1 = "1".repeat(40);
    let sha256 = "a".repeat(64);

    assert_eq!(
        parse_selector_output(format!("{sha1}\t{selector}\n").as_bytes(), selector).unwrap(),
        format!("sha1-{sha1}")
    );
    assert_eq!(
        parse_selector_output(format!("{sha256}\t{selector}\n").as_bytes(), selector).unwrap(),
        format!("sha256-{sha256}")
    );
}

#[test]
fn selector_parser_rejects_ambiguity_peeling_and_nonexact_records() {
    let selector = "refs/heads/main";
    let oid = "1".repeat(40);
    for output in [
        format!("{oid}\t{selector}"),
        format!("{oid}\trefs/heads/other\n"),
        format!("{oid}\t{selector}^{{}}\n"),
        format!("{}\t{selector}\n", "1".repeat(39)),
        format!("{}\t{selector}\n", "A".repeat(40)),
        format!("{oid}\t{selector}\n{oid}\t{selector}\n"),
        format!("{oid} {selector}\n"),
        format!("{oid}\t{selector}\textra\n"),
    ] {
        assert!(matches!(
            parse_selector_output(output.as_bytes(), selector),
            Err(GitAcquisitionIssue::InvalidSelectorOutput { .. })
        ));
    }
}

fn at_lock(class: PathClass) -> GitAcquisitionIssue {
    let commit = format!("tree {}\n\nmessage\n", "22".repeat(20)).into_bytes();
    let tree = tree_bytes(&[(b"100600", b"malm.lock", 0x33)]);
    let mut step = read_pack(GitObjectFormat::Sha1, "11".repeat(20), PackSubdir::Root);
    for bytes in [commit, tree] {
        step = match step {
            ReadStep::Object(wait) => wait.deliver(bytes).unwrap(),
            _ => panic!("an object is needed"),
        };
    }
    match step {
        ReadStep::Classify(wait) => {
            assert_eq!(wait.path(), "malm.lock");
            match wait.answer(class) {
                Ok(_) => panic!("the lock is never passed over"),
                Err(issue) => issue,
            }
        }
        _ => panic!("the path is asked about"),
    }
}

#[test]
fn a_lock_with_an_unsupported_mode_is_refused() {
    assert!(matches!(
        at_lock(PathClass::Invalid("no pack path".to_owned())),
        GitAcquisitionIssue::InvalidPath { detail } if detail == "no pack path"
    ));
    for class in [PathClass::Content, PathClass::Reserved] {
        assert!(matches!(
            at_lock(class),
            GitAcquisitionIssue::UnsupportedMode { path, mode }
                if path == "malm.lock" && mode == "100600"
        ));
    }
}
