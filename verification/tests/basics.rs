//! Paths, texts, orders, spans of time and events.

use malm_engine::capture::resolve_locator;
use malm_engine::error::EngineError;
use malm_engine::events::{
    close_operation, finish_operation, DiagnosticEvent, EngineFailureKind, EngineFailureRef, EngineOperation,
    OperationCounter, OperationId, OperationOutcome, ProgressEvent,
};
use malm_engine::path::{
    join_paths, normalize_path, path_components, path_has_prefix, paths_overlap,
};
use malm_engine::ports::{FormatComponentExecutionIssue, GitPackFile, ProcessFacts};
use malm_engine::seqs::{bytes_before, parse_decimal, split_bytes};
use malm_engine::sort::stable_order;
use malm_engine::text::{
    decimal_text, join_texts, octal4_text, split_text, text_contains, text_skip, text_starts_with,
};
use malm_engine::time::Duration;

#[test]
fn paths_are_normalized_lexically() {
    for (path, expected) in [
        ("/a/./b", "/a/b"),
        ("/a/../b", "/b"),
        ("/..", "/"),
        ("/a//b/", "/a/b"),
        ("/", "/"),
    ] {
        let normal = normalize_path(path.as_bytes());
        assert_eq!(normal, expected.as_bytes());
        assert_eq!(normalize_path(&normal), normal);
    }
    assert_eq!(join_paths(b"/a", b"b/c"), b"/a/b/c");
    assert_eq!(join_paths(b"/a", b"/b"), b"/b");
    assert!(path_has_prefix(b"/a/b", b"/a"));
    assert!(!path_has_prefix(b"/ab", b"/a"));
    assert!(paths_overlap(b"/a", b"/a/b") && paths_overlap(b"/a/b", b"/a"));
    assert!(!paths_overlap(b"/a/b", b"/a/c"));
    assert_eq!(path_components(b"/a/./b"), path_components(b"/a/b"));
}

#[test]
fn locators_climb_no_higher_than_the_top() {
    let way = resolve_locator(3, b"../x/y");
    assert_eq!(way.retained, 2);
    assert_eq!(way.names, [b"x".to_vec(), b"y".to_vec()]);
    let way = resolve_locator(2, b"../../../x");
    assert_eq!(way.retained, 1);
    assert_eq!(way.names, [b"x".to_vec()]);
}

#[test]
fn numbers_and_texts() {
    assert_eq!(decimal_text(0), "0");
    assert_eq!(decimal_text(u64::MAX), "18446744073709551615");
    assert_eq!(octal4_text(0o7), "0007");
    assert_eq!(octal4_text(0o7777), "7777");
    assert_eq!(octal4_text(0o12345), "12345");
    assert!(text_starts_with("é-x", "é"));
    assert!(text_contains("abc", "bc"));
    assert!(text_contains("abc", ""));
    assert!(!text_contains("abc", "cb"));
    assert_eq!(text_skip("éx", 1), "x");
    assert_eq!(split_text("a//b", '/'), [vec!['a'], vec![], vec!['b']]);
    assert_eq!(join_texts(&vec!["a".to_owned(), "b".to_owned()], ", "), "a, b");
    assert_eq!(join_texts(&Vec::new(), ", "), "");
    assert_eq!(parse_decimal(b"18446744073709551615"), Some(u64::MAX));
    assert_eq!(parse_decimal(b"18446744073709551616"), None);
    assert_eq!(split_bytes(b"a b", b' '), [b"a".to_vec(), b"b".to_vec()]);
    assert!(bytes_before(b"a", b"ab"));
    assert!(!bytes_before(b"b", b"ab"));
}

#[test]
fn orders_are_stable() {
    let keys = vec![b"b".to_vec(), b"a".to_vec(), b"b".to_vec(), b"a".to_vec(), Vec::new()];
    assert_eq!(stable_order(&keys), [4, 1, 3, 0, 2]);
}

#[test]
fn spans_are_told_in_seconds() {
    assert_eq!(Duration::from_secs(3).seconds_text(), "3");
    assert_eq!(Duration::from_millis(1_250).seconds_text(), "1.25");
    assert_eq!(Duration::from_millis(1_005).seconds_text(), "1.005");
    assert_eq!(Duration::from_millis(2_500).as_secs(), 2);
    assert_eq!(Duration::from_millis(2_500).subsec_nanos(), 500_000_000);
    assert!(Duration::from_secs(0).is_zero());
    assert!(Duration::from_millis(1_001).is_longer_than(Duration::from_secs(1)));
    assert!(!Duration::from_secs(1).is_longer_than(Duration::from_secs(1)));
}

#[test]
fn operations_are_numbered_and_named_apart() {
    let mut counter = OperationCounter::new(u64::MAX);
    let (first, event) = counter.start(EngineOperation::FsckV1);
    assert_eq!(first.get(), u64::MAX);
    assert_eq!(
        event,
        ProgressEvent::OperationStarted {
            operation_id: OperationId::new(u64::MAX),
            operation: EngineOperation::FsckV1,
        }
    );
    let (second, _) = counter.start(EngineOperation::PruneV1);
    assert_eq!(second.get(), 0);
    for (succeeded, outcome) in [(true, OperationOutcome::Succeeded), (false, OperationOutcome::Failed)] {
        assert_eq!(
            finish_operation(second, EngineOperation::PruneV1, succeeded),
            ProgressEvent::OperationFinished {
                operation_id: second,
                operation: EngineOperation::PruneV1,
                outcome,
            }
        );
    }
    let mut names: Vec<&str> = EngineOperation::all().iter().map(|operation| operation.as_str()).collect();
    assert_eq!(names.len(), 51);
    names.sort_unstable();
    names.dedup();
    assert_eq!(names.len(), 51);
    let error = EngineError::ReadOnlyStore;
    let event = DiagnosticEvent::new(second, EngineOperation::PruneV1, EngineFailureRef::Engine(&error));
    assert_eq!(event.operation_id(), second);
    assert_eq!(event.operation(), EngineOperation::PruneV1);
    assert_eq!(event.failure().kind(), EngineFailureKind::Engine);
    assert_eq!(EngineFailureRef::Commit("x").kind(), EngineFailureKind::Commit);
    let commit = EngineError::Commit { detail: "x".to_owned() };
    assert_eq!(commit.failure().kind(), EngineFailureKind::Commit);
    let (diagnostic, finished) =
        close_operation(second, EngineOperation::PruneV1, Some(error.failure()));
    assert_eq!(diagnostic.unwrap().failure().kind(), EngineFailureKind::Engine);
    assert_eq!(finished, finish_operation(second, EngineOperation::PruneV1, false));
    let (diagnostic, finished) = close_operation(second, EngineOperation::PruneV1, None);
    assert!(diagnostic.is_none());
    assert_eq!(finished, finish_operation(second, EngineOperation::PruneV1, true));
}

#[test]
fn ports_hold_their_values() {
    let facts = ProcessFacts::new(7, Some(1024));
    assert_eq!(facts.effective_user_id(), 7);
    assert_eq!(facts.open_file_soft_limit(), Some(1024));
    assert_eq!(FormatComponentExecutionIssue::new("r".to_owned()).reason(), "r");
    let file = GitPackFile::with_mode("a".to_owned(), b"x".to_vec(), 0o755).unwrap();
    assert_eq!(file.clone().into_parts(), ("a".to_owned(), b"x".to_vec()));
    assert_eq!(file.into_mode_parts(), ("a".to_owned(), b"x".to_vec(), 0o755));
}
