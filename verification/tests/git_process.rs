//! Running Git: its command lines, its supervision and its replies.

use malm_engine::git::confinement::{confinement_filter, FilterInstruction, Platform};
use malm_engine::git::issue::{GitAcquisitionIssue, GitCommandStage, GitOutputStream};
use malm_engine::git::object::{encode_hex, GitObjectFormat, GitObjectKind};
use malm_engine::git::process::{
    check_output_limit, control_outcome, effective_file_size_limit, environment, fetch_command,
    initialize_command, process_failed, read_command, read_outcome, resolve_command,
    sanitize_control_text, Drain, ExitReport, STDERR_OVERFLOW, STDOUT_OVERFLOW,
};
use malm_engine::git::reader::{read_pack, PackSubdir, PathClass, ReadStep};
use malm_engine::git::reply::{
    finish_body, object_request, push_header_byte, reply_size, Batch, MAX_BATCH_HEADER_BYTES,
};
use malm_engine::git::supervision::{
    ScanFailure, ScratchBudget, ScratchScan, SuperviseAction, Supervisor,
    MAX_SCRATCH_SCAN_DEPTH, MAX_SCRATCH_SCAN_ENTRIES,
};
use malm_engine::git::tree::{parse_commit_tree, parse_tree, TraversalBudget, TreeMode};
use malm_engine::ports::GitPackFile;
use malm_engine::time::Duration;

#[test]
fn commands_are_configured_against_surprises() {
    for line in [
        initialize_command(GitObjectFormat::Sha256),
        fetch_command("https://u", "oid"),
        read_command(),
        resolve_command("https://u", "refs/heads/main"),
    ] {
        assert_eq!(line[0], "--no-pager");
        assert_eq!(line[1], "-c");
    }
    let line = initialize_command(GitObjectFormat::Sha256);
    assert_eq!(
        line[line.len() - 5..],
        ["init", "--bare", "--quiet", "--object-format=sha256", "."]
    );
    let line = fetch_command("https://u", "oid");
    assert_eq!(line[line.len() - 3..], ["--depth=1", "https://u", "oid"]);
    let line = read_command();
    assert_eq!(line[line.len() - 3..], ["--git-dir=.", "cat-file", "--batch"]);
    let line = resolve_command("https://u", "refs/heads/main");
    assert_eq!(
        line[line.len() - 6..],
        ["ls-remote", "--refs", "--exit-code", "--", "https://u", "refs/heads/main"]
    );
    let variables = environment();
    assert_eq!(variables.len(), 17);
    assert!(variables.contains(&("GIT_ALLOW_PROTOCOL".to_owned(), "https".to_owned())));
    assert!(variables.contains(&("GIT_TERMINAL_PROMPT".to_owned(), "0".to_owned())));
}

#[test]
fn file_sizes_are_limited_by_the_smallest_bound() {
    assert_eq!(effective_file_size_limit(5, None, None), 5);
    assert_eq!(effective_file_size_limit(5, Some(3), Some(9)), 3);
    assert_eq!(effective_file_size_limit(5, Some(9), Some(2)), 2);
}

#[test]
fn drains_keep_what_fits() {
    let mut drain = Drain::new(4);
    assert!(!drain.accept(b"abc"));
    assert!(!drain.accept(b"d"));
    assert!(drain.accept(b"e"));
    assert!(drain.accept(b""));
    assert_eq!(drain.into_bytes(), b"abcd");
}

#[test]
fn control_text_is_told_without_control_characters() {
    assert_eq!(sanitize_control_text(b"  fatal:\x1b[31m\tno\n"), "fatal:[31m\tno");
    assert_eq!(sanitize_control_text(&[b'a', 0xff, 0x07]), "a\u{fffd}");
    assert_eq!(sanitize_control_text("\u{2003}x\u{85}".as_bytes()), "x");
    assert!(matches!(
        process_failed(GitCommandStage::Fetch, Some(1), b" x "),
        GitAcquisitionIssue::ProcessFailed { stage: GitCommandStage::Fetch, code: Some(1), detail }
            if detail == "x"
    ));
}

fn exit(success: bool) -> ExitReport {
    ExitReport { success, code: Some(if success { 0 } else { 1 }), file_size_signal: false }
}

#[test]
fn outcomes_are_settled_in_order() {
    let stage = GitCommandStage::Fetch;
    assert!(check_output_limit(stage, 0, true, 9).is_ok());
    assert!(check_output_limit(stage, STDOUT_OVERFLOW, false, 9).is_ok());
    assert!(matches!(
        check_output_limit(stage, STDOUT_OVERFLOW | STDERR_OVERFLOW, true, 9),
        Err(GitAcquisitionIssue::OutputLimitExceeded { stream: GitOutputStream::Stdout, .. })
    ));
    assert!(matches!(
        check_output_limit(stage, STDERR_OVERFLOW, true, 9),
        Err(GitAcquisitionIssue::OutputLimitExceeded { stream: GitOutputStream::Stderr, .. })
    ));
    let control = |wait, flags| control_outcome(stage, wait, flags, 9, b"out".to_vec(), b"err");
    assert_eq!(control(Ok(exit(true)), 0).unwrap(), b"out");
    assert!(matches!(
        control(Ok(exit(false)), 0),
        Err(GitAcquisitionIssue::ProcessFailed { .. })
    ));
    assert!(matches!(
        control(Ok(exit(false)), STDERR_OVERFLOW),
        Err(GitAcquisitionIssue::OutputLimitExceeded { .. })
    ));
    assert!(matches!(
        control(Err(GitAcquisitionIssue::ScratchRootMissing), STDERR_OVERFLOW),
        Err(GitAcquisitionIssue::ScratchRootMissing)
    ));
    let files = || Ok(vec![GitPackFile::new("a".to_owned(), b"x".to_vec())]);
    assert_eq!(read_outcome(Ok(exit(true)), 0, 9, files(), b"").unwrap().len(), 1);
    assert!(matches!(
        read_outcome(Ok(exit(false)), 0, 9, Err(GitAcquisitionIssue::ScratchRootNotEmpty), b""),
        Err(GitAcquisitionIssue::ScratchRootNotEmpty)
    ));
    assert!(read_outcome(Ok(exit(false)), 0, 9, files(), b"").is_err());
    assert!(read_outcome(Ok(exit(true)), STDOUT_OVERFLOW, 9, files(), b"").is_ok());
}

fn supervisor(budget: Option<ScratchBudget>) -> Supervisor {
    Supervisor {
        stage: GitCommandStage::Fetch,
        timeout: Duration::from_secs(5),
        watch_stdout: true,
        output_limit: 9,
        budget,
    }
}

#[test]
fn running_processes_are_measured_polled_and_timed() {
    let budget = ScratchBudget { baseline: 10, limit: 5 };
    assert_eq!(budget.cutoff(), 15);
    let watched = supervisor(Some(budget));
    assert!(matches!(watched.after_flags(0), SuperviseAction::Measure { cutoff: 15 }));
    assert!(matches!(supervisor(None).after_flags(0), SuperviseAction::Poll));
    assert!(matches!(watched.after_flags(STDERR_OVERFLOW), SuperviseAction::Stop(_)));
    assert!(matches!(watched.after_usage(Ok(15)), SuperviseAction::Poll));
    assert!(matches!(
        watched.after_usage(Ok(16)),
        SuperviseAction::Stop(GitAcquisitionIssue::TransferLimitExceeded { limit: 5, .. })
    ));
    assert!(matches!(
        watched.after_usage(Err(ScanFailure::TimedOut)),
        SuperviseAction::Stop(GitAcquisitionIssue::Timeout { .. })
    ));
    assert!(matches!(
        watched.after_usage(Err(ScanFailure::Other("d".to_owned()))),
        SuperviseAction::Stop(GitAcquisitionIssue::ProcessIo { .. })
    ));
    assert!(matches!(watched.after_poll(Ok(true)), SuperviseAction::Collect));
    assert!(matches!(watched.after_poll(Ok(false)), SuperviseAction::CheckClock));
    assert!(matches!(watched.after_poll(Err("d".to_owned())), SuperviseAction::Stop(_)));
    assert!(matches!(watched.after_clock(false), SuperviseAction::Pause));
    assert!(matches!(
        watched.after_clock(true),
        SuperviseAction::Stop(GitAcquisitionIssue::Timeout { .. })
    ));
}

#[test]
fn finished_processes_are_measured_once_more() {
    let watched = supervisor(Some(ScratchBudget { baseline: 10, limit: 5 }));
    assert!(matches!(
        watched.after_exit(exit(true)),
        SuperviseAction::MeasureFinal { cutoff: 15 }
    ));
    assert!(matches!(supervisor(None).after_exit(exit(true)), SuperviseAction::Done(_)));
    assert!(matches!(watched.after_final_usage(exit(true), Ok(15)), SuperviseAction::Done(_)));
    assert!(matches!(watched.after_final_usage(exit(true), Ok(16)), SuperviseAction::Fail(_)));
    assert!(matches!(watched.after_final_usage(exit(false), Ok(14)), SuperviseAction::Done(_)));
    assert!(matches!(watched.after_final_usage(exit(false), Ok(15)), SuperviseAction::Fail(_)));
    let signalled = ExitReport { success: false, code: None, file_size_signal: true };
    assert!(matches!(watched.after_final_usage(signalled, Ok(0)), SuperviseAction::Fail(_)));
}

#[test]
fn scratch_scans_are_bounded() {
    let mut scan = ScratchScan::new(100);
    assert!(scan.ensure_deadline(false).is_ok());
    assert!(scan.ensure_deadline(true).is_err());
    assert!(scan.enter_directory(MAX_SCRATCH_SCAN_DEPTH).is_ok());
    assert!(scan.enter_directory(MAX_SCRATCH_SCAN_DEPTH + 1).is_err());
    assert!(scan.count_entry().is_ok());
    assert!(!scan.add_file(40, 0));
    assert_eq!(scan.total, 40);
    assert!(!scan.is_over());
    assert!(scan.add_file(1, 1));
    assert_eq!(scan.total, 552);
    assert!(scan.add_file(-1, i64::MAX));
    assert_eq!(scan.total, u64::MAX);
    scan.entries = MAX_SCRATCH_SCAN_ENTRIES;
    assert!(scan.count_entry().is_err());
}

fn run_filter(program: &[FilterInstruction], platform: Platform, arch: u32, number: u32) -> u32 {
    let mut at = 0;
    let mut accumulator = 0;
    loop {
        let step = program[at];
        at += 1;
        match step.code {
            0x20 => {
                accumulator = if step.k == platform.arch_offset { arch } else { number };
            }
            0x15 => {
                at += usize::from(if accumulator == step.k { step.jt } else { step.jf });
            }
            0x54 => accumulator &= step.k,
            0x06 => return step.k,
            other => panic!("instruction {other:#x}"),
        }
    }
}

#[test]
fn children_cannot_leave_their_process_group() {
    let platform = Platform {
        native_arch: 0xc000_003e,
        arch_offset: 4,
        number_offset: 0,
        setsid: 112,
        setpgid: 109,
        eperm: 1,
    };
    let program = confinement_filter(platform);
    let run = |arch, number| run_filter(&program, platform, arch, number);
    assert_eq!(run(platform.native_arch, 0), 0x7fff_0000);
    for number in [112, 109, 112 | 0x4000_0000, 109 | 0x4000_0000] {
        assert_eq!(run(platform.native_arch, number), 0x0005_0001);
    }
    assert_eq!(run(0x4000_0003, 0), 0x8000_0000);
}

#[test]
fn replies_name_the_object_that_was_asked_for() {
    let oid = "1".repeat(40);
    let size = |header: String| {
        reply_size(header.as_bytes(), GitObjectFormat::Sha1, &oid, GitObjectKind::Blob, 100)
    };
    assert_eq!(size(format!("{oid} blob 100")).unwrap(), 100);
    assert!(matches!(
        size(format!("{oid} missing")),
        Err(GitAcquisitionIssue::MissingObject { .. })
    ));
    assert!(matches!(
        size(format!("{oid} tree 3")),
        Err(GitAcquisitionIssue::UnexpectedObjectType { .. })
    ));
    assert!(matches!(
        size(format!("{oid} blob 101")),
        Err(GitAcquisitionIssue::ObjectTooLarge { actual: 101, .. })
    ));
    for (header, words) in [
        (format!("{oid} blob"), "invalid cat-file batch header"),
        (format!("{} blob 3", "2".repeat(40)), "batch returned another object ID"),
        (format!("{oid} blob "), "batch object size is not decimal"),
        (format!("{oid} blob +3"), "batch object size is not decimal"),
        (format!("{oid} blob 99999999999999999999"), "batch object size overflows u64"),
    ] {
        assert!(matches!(
            size(header),
            Err(GitAcquisitionIssue::MalformedObject { detail, .. }) if detail == words
        ));
    }
    let not_text = [oid.as_bytes(), b" ", &[0xff], b" 3"].concat();
    assert!(matches!(
        reply_size(&not_text, GitObjectFormat::Sha1, &oid, GitObjectKind::Blob, 100),
        Err(GitAcquisitionIssue::MalformedObject { detail, .. })
            if detail == "batch object type is not ASCII"
    ));
    let mut header = vec![b'x'; MAX_BATCH_HEADER_BYTES];
    assert!(push_header_byte(&mut header, b'\n').unwrap());
    assert!(push_header_byte(&mut header, b'x').is_err());
    let mut header = Vec::new();
    assert!(!push_header_byte(&mut header, b'x').unwrap());
    assert_eq!(header, b"x");
    assert_eq!(
        object_request(GitObjectFormat::Sha1, &oid, GitObjectKind::Blob).unwrap(),
        format!("{oid}\n").into_bytes()
    );
    assert!(object_request(GitObjectFormat::Sha256, &oid, GitObjectKind::Blob).is_err());
    assert_eq!(finish_body(b"x".to_vec(), b'\n', GitObjectKind::Blob).unwrap(), b"x");
    assert!(finish_body(b"x".to_vec(), b'x', GitObjectKind::Blob).is_err());
}

#[test]
fn batches_ask_and_read_in_turn() {
    let oid = "1".repeat(40);
    let replies = format!("{oid} blob 3\nabc\n{oid} blob 2\nxy\n");
    let mut batch = Batch::new(replies.into_bytes(), GitObjectFormat::Sha1);
    assert_eq!(batch.object(&oid, GitObjectKind::Blob, 9).unwrap(), b"abc");
    assert_eq!(batch.object(&oid, GitObjectKind::Blob, 9).unwrap(), b"xy");
    assert!(batch.object(&oid, GitObjectKind::Blob, 9).is_err());
    assert_eq!(batch.requests(), format!("{oid}\n{oid}\n{oid}\n").as_bytes());
}

#[test]
fn object_ids_are_lowercase_hex() {
    assert_eq!(GitObjectFormat::from_tagged("sha1-ab"), GitObjectFormat::Sha1);
    assert_eq!(GitObjectFormat::from_tagged("sha256-ab"), GitObjectFormat::Sha256);
    for format in [GitObjectFormat::Sha1, GitObjectFormat::Sha256] {
        for digit in ["a", "F", "z"] {
            let oid = digit.repeat(format.hex_len());
            let tagged = format!("{}-{oid}", format.as_str());
            assert_eq!(GitObjectFormat::from_tagged(&tagged), format);
            assert_eq!(format.raw_oid(&tagged), oid);
        }
    }
    let wide = "\u{e9}".repeat(20);
    assert_eq!(GitObjectFormat::Sha1.raw_oid(&format!("sha1-{wide}")), wide);
    assert_eq!((GitObjectFormat::Sha1.hex_len(), GitObjectFormat::Sha1.raw_len()), (40, 20));
    assert_eq!((GitObjectFormat::Sha256.hex_len(), GitObjectFormat::Sha256.raw_len()), (64, 32));
    assert!(GitObjectFormat::Sha1.validate_hex(&"a".repeat(40)));
    assert!(!GitObjectFormat::Sha1.validate_hex(&"A".repeat(40)));
    assert!(!GitObjectFormat::Sha1.validate_hex(&"a".repeat(41)));
    assert_eq!(encode_hex(&[0x00, 0x9f, 0xff]), "009fff");
    assert_ne!(encode_hex(&[0x01]), encode_hex(&[0x10]));
}

#[test]
fn trees_and_commits_are_parsed() {
    assert!(matches!(TreeMode::from_bytes(b"40000"), TreeMode::Tree));
    assert!(matches!(TreeMode::from_bytes(b"100755"), TreeMode::Regular(0o755)));
    assert!(matches!(TreeMode::from_bytes(b"160000"), TreeMode::Gitlink));
    assert!(matches!(TreeMode::from_bytes(b"120000"), TreeMode::Symlink));
    assert!(matches!(TreeMode::from_bytes(b"1"), TreeMode::Unsupported(mode) if mode == "1"));
    let mut budget = TraversalBudget::fresh();
    let mut tree = b"100644 a\0".to_vec();
    tree.extend_from_slice(&[0xab; 20]);
    let entries = parse_tree(&tree, GitObjectFormat::Sha1, &mut budget).unwrap();
    assert_eq!(entries.len(), 1);
    assert_eq!(entries[0].name, b"a");
    assert_eq!(entries[0].oid, "ab".repeat(20));
    for broken in [&b"100644 a"[..], b"100644 \0", b"100644 a\0xx", b"nomode"] {
        assert!(parse_tree(broken, GitObjectFormat::Sha1, &mut budget).is_err());
    }
    let oid = "c".repeat(40);
    let commit = format!("tree {oid}\nauthor x\n\nmessage");
    assert_eq!(parse_commit_tree(commit.as_bytes(), GitObjectFormat::Sha1).unwrap(), oid);
    assert!(parse_commit_tree(b"author x\n", GitObjectFormat::Sha1).is_err());
    assert!(parse_commit_tree(commit.as_bytes(), GitObjectFormat::Sha256).is_err());
}

fn frame(output: &mut Vec<u8>, oid: &str, kind: &str, bytes: &[u8]) {
    output.extend_from_slice(format!("{oid} {kind} {}\n", bytes.len()).as_bytes());
    output.extend_from_slice(bytes);
    output.push(b'\n');
}

fn entry(tree: &mut Vec<u8>, mode: &str, name: &str, oid_byte: u8) {
    tree.extend_from_slice(format!("{mode} {name}\0").as_bytes());
    tree.extend_from_slice(&[oid_byte; 20]);
}

fn read_subdir(root: &[u8], segments: &[&str]) -> Result<Vec<GitPackFile>, GitAcquisitionIssue> {
    let commit_oid = "11".repeat(20);
    let mut inner = Vec::new();
    entry(&mut inner, "100644", "file", 0x44);
    let mut stream = Vec::new();
    let commit = format!("tree {}\n\n", "22".repeat(20));
    frame(&mut stream, &commit_oid, "commit", commit.as_bytes());
    frame(&mut stream, &"22".repeat(20), "tree", root);
    frame(&mut stream, &"33".repeat(20), "tree", &inner);
    frame(&mut stream, &"44".repeat(20), "blob", b"content");
    let mut batch = Batch::new(stream, GitObjectFormat::Sha1);
    let subdir = PackSubdir::Path(segments.iter().map(|name| (*name).to_owned()).collect());
    let mut step = read_pack(GitObjectFormat::Sha1, commit_oid, subdir);
    loop {
        step = match step {
            ReadStep::Object(wait) => {
                let bytes = batch.object(wait.oid(), wait.kind(), wait.limit())?;
                wait.deliver(bytes)?
            }
            ReadStep::Classify(wait) => wait.answer(PathClass::Content)?,
            ReadStep::Finished(files) => return Ok(files),
        };
    }
}

#[test]
fn packs_are_read_below_their_subdirectory() {
    let mut root = Vec::new();
    entry(&mut root, "100644", "file", 0x55);
    entry(&mut root, "40000", "pack", 0x33);
    let files = read_subdir(&root, &["pack"]).unwrap();
    assert_eq!(files.len(), 1);
    assert_eq!(files[0].path(), "file");
    assert_eq!(files[0].bytes(), b"content");
    assert!(matches!(
        read_subdir(&root, &["other"]),
        Err(GitAcquisitionIssue::MissingSubdir { subdir }) if subdir == "other"
    ));
    assert!(matches!(
        read_subdir(&root, &["file"]),
        Err(GitAcquisitionIssue::SubdirNotTree { path, mode })
            if path == "file" && mode == "100644"
    ));
}

#[test]
fn refused_tree_entries_are_named() {
    let read = |mode: &str| {
        let mut root = Vec::new();
        entry(&mut root, "40000", "pack", 0x33);
        let mut inner = Vec::new();
        entry(&mut inner, mode, "odd", 0x44);
        let commit_oid = "11".repeat(20);
        let mut stream = Vec::new();
        let commit = format!("tree {}\n\n", "22".repeat(20));
        frame(&mut stream, &commit_oid, "commit", commit.as_bytes());
        frame(&mut stream, &"22".repeat(20), "tree", &inner);
        let mut batch = Batch::new(stream, GitObjectFormat::Sha1);
        let mut step = read_pack(GitObjectFormat::Sha1, commit_oid, PackSubdir::Root);
        loop {
            let moved = match step {
                ReadStep::Object(wait) => {
                    let bytes = batch.object(wait.oid(), wait.kind(), wait.limit()).unwrap();
                    wait.deliver(bytes)
                }
                ReadStep::Classify(wait) => wait.answer(PathClass::Content),
                ReadStep::Finished(_) => panic!("the entry is refused"),
            };
            match moved {
                Ok(next) => step = next,
                Err(issue) => return issue,
            }
        }
    };
    assert!(matches!(read("160000"), GitAcquisitionIssue::Gitlink { path } if path == "odd"));
    assert!(matches!(
        read("100600"),
        GitAcquisitionIssue::UnsupportedMode { path, mode } if path == "odd" && mode == "100600"
    ));
    let mut step = read_pack(GitObjectFormat::Sha1, "11".repeat(20), PackSubdir::Root);
    let mut inner = Vec::new();
    entry(&mut inner, "100644", "bad", 0x44);
    for bytes in [format!("tree {}\n\n", "22".repeat(20)).into_bytes(), inner] {
        step = match step {
            ReadStep::Object(wait) => wait.deliver(bytes).unwrap(),
            _ => panic!("an object is due"),
        };
    }
    let ReadStep::Classify(wait) = step else {
        panic!("a path is to be classified");
    };
    assert_eq!(wait.path(), "bad");
    assert!(matches!(
        wait.answer(PathClass::Invalid("no such path".to_owned())),
        Err(GitAcquisitionIssue::InvalidPath { detail }) if detail == "no such path"
    ));
}
