// Tests of the drain loops, the bounded line reader, and whole-run
// aggregation scenarios.

use codex_mcp_rs::codex::complete_run;
use codex_mcp_rs::drain::{drain_stderr, drain_stdout};
use codex_mcp_rs::reader::{FeedOut, LineAssembler};

fn text(v: &[u8]) -> String {
    String::from_utf8_lossy(v).into_owned()
}

const MAX_LINE: usize = 1048576;

#[test]
fn test_scenario_two_valid_lines() {
    let stdout = b"{\"thread_id\":\"s1\"}\n{\"item\":{\"type\":\"agent_message\",\"text\":\"hi\"}}\n";
    let r = complete_run(stdout, b"", true, Some(0), None);
    assert!(r.success);
    assert_eq!(text(&r.session_id), "s1");
    assert_eq!(text(&r.agent_messages), "hi");
    assert!(!r.agent_messages_truncated);
    assert_eq!(r.all_messages.len(), 2);
    assert!(r.error.is_none());
    assert!(r.warnings.is_none());
}

#[test]
fn test_scenario_task_failed_event() {
    let stdout = b"{\"type\":\"task_failed\",\"error\":{\"message\":\"boom\"}}\n";
    let r = complete_run(stdout, b"", true, Some(0), None);
    assert!(!r.success);
    let err = text(r.error.as_ref().unwrap());
    assert!(err.contains("boom"));
    assert!(err.contains("codex error: boom"));
}

#[test]
fn test_scenario_stderr_over_cap_is_warning() {
    let stdout = b"{\"thread_id\":\"s1\"}\n{\"item\":{\"type\":\"agent_message\",\"text\":\"done\"}}\n";
    let mut stderr = vec![b'e'; 2 * 1024 * 1024];
    stderr.push(b'\n');
    let r = complete_run(stdout, &stderr, true, Some(0), None);
    assert!(r.success);
    let warnings = text(r.warnings.as_ref().unwrap());
    assert!(warnings.contains("[... stderr truncated due to size limit ...]"));
    assert!(r.error.is_none());
}

#[test]
fn test_drain_on_error_keeps_consuming() {
    let stdout = b"not-json\n{\"thread_id\":\"s1\"}\n{\"item\":{\"type\":\"agent_message\",\"text\":\"hi\"}}\n";
    let d = drain_stdout(stdout, MAX_LINE);
    assert!(d.parse_error_seen);
    assert!(!d.result.success);
    assert!(text(d.result.error.as_ref().unwrap()).contains("JSON parse error"));
    // The later valid lines were consumed but recorded nothing.
    assert!(d.result.session_id.is_empty());
    assert!(d.result.agent_messages.is_empty());
    assert!(d.result.all_messages.is_empty());
}

#[test]
fn test_oversized_line_does_not_mask_session_error() {
    let mut stdout = vec![b'a'; 2 * 1024 * 1024];
    stdout.push(b'\n');
    let r = complete_run(&stdout, b"", true, Some(0), None);
    assert!(!r.success);
    let err = text(r.error.as_ref().unwrap());
    assert!(err.contains("Output line exceeded 1048576 byte limit"));
    assert!(
        !err.contains("SESSION_ID"),
        "missing session id must not add a second error"
    );
}

#[test]
fn test_oversized_line_recorded_once() {
    let mut stdout = vec![b'a'; 2 * 1024 * 1024];
    stdout.push(b'\n');
    stdout.extend_from_slice(&vec![b'b'; 2 * 1024 * 1024]);
    stdout.push(b'\n');
    let d = drain_stdout(&stdout, MAX_LINE);
    let err = text(d.result.error.as_ref().unwrap());
    assert_eq!(err.matches("Output line exceeded").count(), 1);
}

#[test]
fn test_agent_text_cap_marker_exactly_once() {
    let cap = 10 * 1024 * 1024;
    let marker = "\n[... Agent messages truncated due to size limit ...]";
    let chunk = "x".repeat(1_000_000);
    let mut stdout = Vec::new();
    for _ in 0..12 {
        let line = format!("{{\"item\":{{\"type\":\"agent_message\",\"text\":\"{}\"}}}}\n", chunk);
        stdout.extend_from_slice(line.as_bytes());
    }
    let d = drain_stdout(&stdout, MAX_LINE);
    assert!(d.result.agent_messages_truncated);
    let agent = text(&d.result.agent_messages);
    assert!(agent.len() <= cap + marker.len());
    assert!(agent.ends_with(marker));
    assert_eq!(agent.matches(marker).count(), 1);
}

#[test]
fn test_session_id_last_non_empty_wins() {
    let stdout = b"{\"thread_id\":\"first\"}\n{\"thread_id\":\"\"}\n{\"thread_id\":\"second\"}\n";
    let d = drain_stdout(stdout, MAX_LINE);
    assert_eq!(text(&d.result.session_id), "second");
}

#[test]
fn test_events_are_kept_canonically_serialized() {
    let stdout = b"{ \"thread_id\" : \"s1\" }\n";
    let d = drain_stdout(stdout, MAX_LINE);
    assert_eq!(d.result.all_messages.len(), 1);
    assert_eq!(text(&d.result.all_messages[0]), "{\"thread_id\":\"s1\"}");
}

#[test]
fn test_non_object_lines_parse_but_are_not_kept() {
    let stdout = b"[1,2,3]\n{\"thread_id\":\"s1\"}\n";
    let d = drain_stdout(stdout, MAX_LINE);
    assert!(!d.parse_error_seen);
    assert_eq!(d.result.all_messages.len(), 1);
    assert_eq!(text(&d.result.session_id), "s1");
}

#[test]
fn test_failure_event_uses_top_level_message() {
    let stdout = b"{\"type\":\"stream_error\",\"message\":\"pipe broke\"}\n";
    let d = drain_stdout(stdout, MAX_LINE);
    assert!(!d.result.success);
    assert!(text(d.result.error.as_ref().unwrap()).contains("codex error: pipe broke"));
}

#[test]
fn test_failure_event_without_message_still_fails() {
    let stdout = b"{\"type\":\"task_failed\"}\n";
    let d = drain_stdout(stdout, MAX_LINE);
    assert!(!d.result.success);
    assert!(d.result.error.is_none());
}

#[test]
fn test_agent_messages_joined_with_newline() {
    let stdout = b"{\"item\":{\"type\":\"agent_message\",\"text\":\"one\"}}\n{\"item\":{\"type\":\"agent_message\",\"text\":\"two\"}}\n";
    let d = drain_stdout(stdout, MAX_LINE);
    assert_eq!(text(&d.result.agent_messages), "one\ntwo");
}

#[test]
fn test_crlf_lines_are_trimmed() {
    let stdout = b"{\"thread_id\":\"s1\"}\r\n";
    let d = drain_stdout(stdout, MAX_LINE);
    assert_eq!(text(&d.result.session_id), "s1");
    assert!(!d.parse_error_seen);
}

#[test]
fn test_empty_lines_are_skipped() {
    let stdout = b"\n\n{\"thread_id\":\"s1\"}\n\n";
    let d = drain_stdout(stdout, MAX_LINE);
    assert!(!d.parse_error_seen);
    assert_eq!(text(&d.result.session_id), "s1");
    assert_eq!(d.result.all_messages.len(), 1);
}

#[test]
fn test_exit_failure_appends_stderr_context() {
    let r = complete_run(b"{\"thread_id\":\"s1\"}\n", b"Warning: Something went wrong\n", false, Some(3), None);
    assert!(!r.success);
    assert_eq!(
        text(r.error.as_ref().unwrap()),
        "codex command failed with exit code: Some(3)\nStderr: Warning: Something went wrong"
    );
}

#[test]
fn test_exit_failure_keeps_root_cause() {
    let stdout = b"{\"type\":\"task_failed\",\"error\":{\"message\":\"boom\"}}\n";
    let r = complete_run(stdout, b"", false, Some(1), None);
    assert!(!r.success);
    let err = text(r.error.as_ref().unwrap());
    assert!(err.contains("codex error: boom"));
    assert!(!err.contains("exit code"));
}

#[test]
fn test_exit_failure_without_code() {
    let r = complete_run(b"{\"thread_id\":\"s1\"}\n", b"", false, None, None);
    assert_eq!(
        text(r.error.as_ref().unwrap()),
        "codex command failed with exit code: None"
    );
}

#[test]
fn test_advisory_joined_before_run_warnings() {
    let r = complete_run(
        b"{\"thread_id\":\"s1\"}\n",
        b"late note\n",
        true,
        Some(0),
        Some(b"early advisory".to_vec()),
    );
    assert!(r.success);
    let w = text(r.warnings.as_ref().unwrap());
    let early = w.find("early advisory").unwrap();
    let late = w.find("late note").unwrap();
    assert!(early < late);
}

#[test]
fn test_line_of_exactly_max_len_not_truncated() {
    let mut lr = LineAssembler::new(4);
    match lr.feed(b"abcd\nefg\n") {
        FeedOut::Line { content, truncated, consumed } => {
            assert_eq!(content, b"abcd".to_vec());
            assert!(!truncated);
            assert_eq!(consumed, 5);
        }
        FeedOut::NeedMore => panic!("expected a line"),
    }
}

#[test]
fn test_line_over_max_len_truncated_and_position_kept() {
    let mut lr = LineAssembler::new(4);
    match lr.feed(b"abcde\nfg\n") {
        FeedOut::Line { content, truncated, consumed } => {
            assert_eq!(content, b"abcd".to_vec());
            assert!(truncated);
            assert_eq!(consumed, 6);
        }
        FeedOut::NeedMore => panic!("expected a line"),
    }
    // The next line still comes out whole: the position stayed exact.
    match lr.feed(b"fg\n") {
        FeedOut::Line { content, truncated, consumed } => {
            assert_eq!(content, b"fg".to_vec());
            assert!(!truncated);
            assert_eq!(consumed, 3);
        }
        FeedOut::NeedMore => panic!("expected a line"),
    }
}

#[test]
fn test_line_assembler_across_chunks() {
    let mut lr = LineAssembler::new(10);
    match lr.feed(b"ab") {
        FeedOut::NeedMore => {}
        _ => panic!("no terminator yet"),
    }
    match lr.feed(b"cd\nef") {
        FeedOut::Line { content, truncated, consumed } => {
            assert_eq!(content, b"abcd".to_vec());
            assert!(!truncated);
            assert_eq!(consumed, 3);
        }
        FeedOut::NeedMore => panic!("expected a line"),
    }
    match lr.finish() {
        Some(_) => panic!("nothing pending after a terminator"),
        None => {}
    }
}

#[test]
fn test_unterminated_tail_counts_as_line() {
    let stdout = b"{\"thread_id\":\"s1\"}";
    let d = drain_stdout(stdout, MAX_LINE);
    assert_eq!(text(&d.result.session_id), "s1");
}

#[test]
fn test_stderr_drain_joins_lines() {
    let d = drain_stderr(b"one\ntwo\r\nthree\n", MAX_LINE);
    assert!(!d.truncated);
    assert_eq!(text(&d.output), "one\ntwo\nthree");
}

#[test]
fn test_events_size_budget_is_sticky() {
    let filler = "y".repeat(1_000_000);
    let mut stdout = Vec::new();
    for i in 0..55 {
        let line = format!("{{\"n\":{},\"pad\":\"{}\"}}\n", i, filler);
        stdout.extend_from_slice(line.as_bytes());
    }
    let d = drain_stdout(&stdout, MAX_LINE);
    assert!(d.result.all_messages_truncated);
    let kept = d.result.all_messages.len();
    assert!(kept < 55);
    let total: usize = d.result.all_messages.iter().map(|m| m.len()).sum();
    assert!(total <= 50 * 1024 * 1024);
    assert_eq!(total, d.events_size);
}
