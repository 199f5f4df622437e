//! Walking a pack source that may change meanwhile.

use malm_engine::capture_walk::{CaptureWalk, CapturedEntry, WalkReply, WalkStep};
use malm_engine::error::EngineError;
use malm_engine::git::reader::PathClass;
use malm_engine::limits::{MAX_CAPTURE_ENTRIES, MAX_PACK_FILE_BYTES};
use malm_engine::stat::{FileStat, HostErrorKind, HostFailure};
use malm_engine::store_steps::Progress;

fn entry(mode: u32, size: i64) -> FileStat {
    FileStat {
        dev: 1,
        ino: 2,
        mode,
        uid: 7,
        gid: 0,
        nlink: 1,
        size,
        mtime: 10,
        mtime_nsec: 11,
        ctime: 12,
        ctime_nsec: 13,
    }
}

fn directory() -> FileStat {
    entry(0o040755, 0)
}

fn file() -> FileStat {
    entry(0o100644, 2)
}

fn names(list: &[&str]) -> Vec<Vec<u8>> {
    list.iter().map(|name| name.as_bytes().to_vec()).collect()
}

fn gone() -> HostFailure {
    HostFailure { kind: HostErrorKind::NotFound, detail: "gone".to_owned() }
}

fn broken() -> HostFailure {
    HostFailure { kind: HostErrorKind::Other, detail: "broken".to_owned() }
}

/// The host of a source with `b`, `a/c` and two names that are passed over.
fn host(step: &WalkStep, depth: &mut usize) -> WalkReply {
    let children = |depth: usize| {
        if depth == 0 {
            names(&["b", ".git", "a", "malm.lock", "reserved"])
        } else {
            names(&["c"])
        }
    };
    match step {
        WalkStep::InspectDirectory { opened, .. } => {
            if opened.is_some() {
                *depth += 1;
            }
            WalkReply::Stat(Ok(directory()))
        }
        WalkStep::ListDirectory { .. } | WalkStep::ListAgain => {
            WalkReply::Names(Ok(children(*depth)))
        }
        WalkStep::Classify { entry } if entry.logical == "reserved" => {
            WalkReply::Class(PathClass::Reserved, None)
        }
        WalkStep::Classify { .. } => WalkReply::Class(PathClass::Content, Some(true)),
        WalkStep::Observe { entry } if entry.logical == "a" => WalkReply::Stat(Ok(directory())),
        WalkStep::OpenDirectory { .. } | WalkStep::OpenFile { .. } => WalkReply::Opened,
        WalkStep::ReadFile { .. } => WalkReply::Bytes(Ok(b"hi".to_vec())),
        WalkStep::InspectFile { .. }
        | WalkStep::ReinspectFile { .. }
        | WalkStep::BindFile { .. }
        | WalkStep::Observe { .. } => WalkReply::Stat(Ok(file())),
        WalkStep::InspectChild { .. }
        | WalkStep::ReinspectDirectory
        | WalkStep::ReinspectChild => WalkReply::Stat(Ok(directory())),
        WalkStep::BindChild { .. } => {
            *depth -= 1;
            WalkReply::Stat(Ok(directory()))
        }
    }
}

fn word(step: &WalkStep) -> String {
    let words = format!("{step:?}");
    words.split(' ').next().unwrap().to_owned()
}

/// Walks, with another reply to a step the first time that it comes.
fn walk(
    other: Option<(&str, WalkReply)>,
) -> (Vec<String>, Result<Vec<CapturedEntry>, EngineError>) {
    let mut other = other;
    let mut depth = 0;
    let mut steps = Vec::new();
    let mut walk = CaptureWalk::new(b"/p");
    loop {
        let name = word(walk.step());
        let usual = host(walk.step(), &mut depth);
        let reply = match other.take() {
            Some((at, reply)) if at == name => reply,
            kept => {
                other = kept;
                usual
            }
        };
        steps.push(name);
        walk = match walk.after(reply) {
            Progress::Next(next) => next,
            Progress::Done(files) => return (steps, Ok(files)),
            Progress::Failed(error) => return (steps, Err(error)),
        };
    }
}

fn reason(at: &str, reply: WalkReply) -> String {
    match walk(Some((at, reply))).1 {
        Err(EngineError::PackCapture { path, reason, .. }) => {
            format!("{}: {reason:?}", String::from_utf8_lossy(&path))
        }
        Err(EngineError::Io { operation, .. }) => operation,
        other => format!("{other:?}"),
    }
}

#[test]
fn files_are_captured_in_the_order_of_their_names() {
    let (steps, files) = walk(None);
    let files = files.unwrap();
    let paths: Vec<&str> = files.iter().map(|file| file.path.as_str()).collect();
    assert_eq!(paths, ["a/c", "b"]);
    assert_eq!(files[0].bytes, b"hi");
    assert_eq!(
        steps[..12],
        [
            "InspectDirectory",
            "ListDirectory",
            "Classify",
            "Observe",
            "OpenDirectory",
            "InspectChild",
            "InspectDirectory",
            "ListDirectory",
            "Classify",
            "Observe",
            "OpenFile",
            "InspectFile",
        ]
    );
    assert_eq!(
        steps[12..19],
        [
            "ReadFile",
            "ReinspectFile",
            "BindFile",
            "ListAgain",
            "ReinspectDirectory",
            "ReinspectChild",
            "BindChild",
        ]
    );
    assert_eq!(steps[steps.len() - 3..], ["Classify", "ListAgain", "ReinspectDirectory"]);
}

#[test]
fn whatever_changes_ends_the_walk() {
    let mut touched = directory();
    touched.mtime = 99;
    let mut replaced = file();
    replaced.ctime = 99;
    for (at, stat, path) in [
        ("InspectDirectory", file(), "/p"),
        ("InspectChild", touched, "/p/a"),
        ("InspectFile", replaced, "/p/a/c"),
        ("BindFile", replaced, "/p/a/c"),
        ("ReinspectDirectory", touched, "/p/a"),
        ("ReinspectChild", touched, "/p/a"),
        ("BindChild", touched, "/p/a"),
    ] {
        let found = reason(at, WalkReply::Stat(Ok(stat)));
        assert_eq!(found, format!("{path}: ObservationChanged"), "{at}");
    }
    for (at, path) in [("Observe", "/p/a"), ("BindFile", "/p/a/c"), ("BindChild", "/p/a")] {
        let found = reason(at, WalkReply::Stat(Err(gone())));
        assert_eq!(found, format!("{path}: ObservationChanged"), "{at}");
    }
    assert_eq!(
        reason("ListAgain", WalkReply::Names(Ok(names(&["c", "d"])))),
        "/p/a: ObservationChanged"
    );
    assert_eq!(
        reason("ReadFile", WalkReply::Bytes(Ok(b"longer".to_vec()))),
        "/p/a/c: ObservationChanged"
    );
    assert_eq!(reason("Classify", WalkReply::Opened), "/p/a: ObservationChanged");
}

#[test]
fn failed_calls_end_the_walk() {
    for (at, operation) in [
        ("InspectDirectory", "inspect local pack source directory"),
        ("Observe", "inspect local pack source entry"),
        ("InspectChild", "inspect opened pack source directory"),
        ("InspectFile", "inspect opened local pack source file"),
        ("ReinspectFile", "reinspect local pack source file"),
        ("BindFile", "revalidate local pack source entry binding"),
        ("ReinspectDirectory", "reinspect local pack source directory"),
        ("ReinspectChild", "reinspect pack source directory"),
        ("BindChild", "revalidate local pack source entry binding"),
    ] {
        assert_eq!(reason(at, WalkReply::Stat(Err(broken()))), operation);
    }
    for (at, operation) in [
        ("ListDirectory", "open local pack source directory for enumeration"),
        ("ListAgain", "reopen local pack source directory for enumeration"),
    ] {
        assert_eq!(reason(at, WalkReply::Names(Err("broken".to_owned()))), operation);
    }
    assert_eq!(
        reason("ReadFile", WalkReply::Bytes(Err("broken".to_owned()))),
        "read local pack source file"
    );
    assert_eq!(
        reason("ReadFile", WalkReply::NoMemory("broken".to_owned())),
        "reserve memory for local pack source file"
    );
    for at in ["OpenDirectory", "OpenFile"] {
        assert_eq!(
            reason(at, WalkReply::NotOpened(broken())),
            "open local pack source entry without following links"
        );
    }
}

#[test]
fn walks_keep_to_their_bounds() {
    let many = vec![b"x".to_vec(); MAX_CAPTURE_ENTRIES + 1];
    let limit = format!("/p: TraversalLimitExceeded {{ limit: {MAX_CAPTURE_ENTRIES} }}");
    assert_eq!(reason("ListDirectory", WalkReply::Names(Ok(many))), limit);
    let large = entry(0o100644, MAX_PACK_FILE_BYTES as i64 + 1);
    assert!(reason("Observe", WalkReply::Stat(Ok(large))).starts_with("/p/a: FileTooLarge"));
    assert_eq!(
        reason("ListDirectory", WalkReply::Names(Ok(vec![vec![255]]))).split(": ").last(),
        Some("NonUtf8Name")
    );
    let invalid = PathClass::Invalid("bad".to_owned());
    assert_eq!(
        reason("Classify", WalkReply::Class(invalid, None)),
        "/p/a: InvalidPath { detail: \"bad\" }"
    );
    assert_eq!(
        reason("Observe", WalkReply::Stat(Ok(entry(0o120777, 0)))),
        "/p/a: SymbolicLink"
    );
}
