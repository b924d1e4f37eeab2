// Tests for the request type, the result type and the result-level
// operations: warning joining, parse-error recording, final validation and
// the synthetic timeout result.

use codex_mcp_rs::codex::{
    default_timeout_secs, enforce_required_fields, push_warning, record_parse_error,
    resolve_timeout, sanitize_flags, timeout_result, CodexResult, Options, ServerConfig,
    ValidationMode,
};

fn text(v: &[u8]) -> String {
    String::from_utf8_lossy(v).into_owned()
}

#[test]
fn test_options_creation() {
    let opts = Options {
        prompt: "test prompt".to_string(),
        working_dir: "/tmp".to_string(),
        session_id: None,
        additional_args: Vec::new(),
        image_paths: Vec::new(),
        timeout_secs: None,
    };

    assert_eq!(opts.prompt, "test prompt");
    assert_eq!(opts.working_dir, "/tmp".to_string());
}

#[test]
fn test_options_with_session() {
    let opts = Options {
        prompt: "resume task".to_string(),
        working_dir: "/tmp".to_string(),
        session_id: Some("test-session-123".to_string()),
        additional_args: vec!["--json".to_string()],
        image_paths: vec!["image.png".to_string()],
        timeout_secs: Some(600),
    };

    assert_eq!(opts.session_id, Some("test-session-123".to_string()));
    assert_eq!(opts.timeout_secs, Some(600));
    assert_eq!(opts.image_paths.len(), 1);
}

#[test]
fn test_path_handling_with_non_utf8() {
    let odd_path = "/path/with/invalid/utf8/\u{fffd}sequence".to_string();
    let opts = Options {
        prompt: "test".to_string(),
        working_dir: odd_path.clone(),
        session_id: None,
        additional_args: Vec::new(),
        image_paths: Vec::new(),
        timeout_secs: None,
    };

    assert_eq!(opts.working_dir, odd_path);
}

#[test]
fn test_record_parse_error_sets_failure_and_appends_message() {
    let mut result = CodexResult {
        success: true,
        session_id: b"session".to_vec(),
        agent_messages: b"ok".to_vec(),
        agent_messages_truncated: false,
        all_messages: Vec::new(),
        all_messages_truncated: false,
        error: Some(b"existing".to_vec()),
        warnings: None,
    };

    let err = serde_json::from_str::<serde_json::Value>("not-json").unwrap_err();
    record_parse_error(&mut result, err.to_string().as_bytes(), b"not-json");

    assert!(!result.success);
    assert!(text(result.error.as_ref().unwrap()).contains("JSON parse error"));
    assert!(text(result.error.as_ref().unwrap()).contains("existing"));
}

#[test]
fn test_enforce_required_fields_warns_on_missing_agent_messages() {
    let result = CodexResult {
        success: true,
        session_id: b"session".to_vec(),
        agent_messages: Vec::new(),
        agent_messages_truncated: false,
        all_messages: vec![b"{}".to_vec()],
        all_messages_truncated: false,
        error: None,
        warnings: None,
    };

    let updated = enforce_required_fields(result, ValidationMode::Full);

    assert!(updated.success);
    assert!(text(updated.warnings.as_ref().unwrap()).contains("No agent_messages"));
}

#[test]
fn test_enforce_required_fields_requires_session_id() {
    let result = CodexResult {
        success: true,
        session_id: Vec::new(),
        agent_messages: b"msg".to_vec(),
        agent_messages_truncated: false,
        all_messages: Vec::new(),
        all_messages_truncated: false,
        error: None,
        warnings: None,
    };

    let updated = enforce_required_fields(result, ValidationMode::Full);

    assert!(!updated.success);
    assert!(text(updated.error.as_ref().unwrap()).contains("Failed to get SESSION_ID"));
}

#[test]
fn test_push_warning_appends_with_newline() {
    let combined = push_warning(Some(b"first".to_vec()), b"second").unwrap();
    let combined = text(&combined);
    assert!(combined.contains("first"));
    assert!(combined.contains("second"));
    assert!(combined.contains('\n'));
}

#[test]
fn test_enforce_required_fields_skips_validation_when_requested() {
    // A timeout result: empty session identifier and agent text.
    let result = CodexResult {
        success: false,
        session_id: Vec::new(),
        agent_messages: Vec::new(),
        agent_messages_truncated: false,
        all_messages: Vec::new(),
        all_messages_truncated: false,
        error: Some(b"Codex execution timed out after 10 seconds".to_vec()),
        warnings: None,
    };

    let updated = enforce_required_fields(result, ValidationMode::Skip);

    assert!(!updated.success);
    assert_eq!(
        text(&updated.error.unwrap()),
        "Codex execution timed out after 10 seconds"
    );
    assert!(updated.warnings.is_none());
    assert!(updated.session_id.is_empty());
}

#[test]
fn test_enforce_required_fields_skips_session_id_when_error_exists() {
    let result = CodexResult {
        success: false,
        session_id: Vec::new(),
        agent_messages: Vec::new(),
        agent_messages_truncated: false,
        all_messages: Vec::new(),
        all_messages_truncated: false,
        error: Some(
            b"Output line exceeded 1048576 byte limit and was truncated, cannot parse JSON."
                .to_vec(),
        ),
        warnings: None,
    };

    let updated = enforce_required_fields(result, ValidationMode::Full);

    assert!(!updated.success);
    let error = text(&updated.error.unwrap());
    assert!(error.contains("truncated"));
    assert!(
        !error.contains("SESSION_ID"),
        "Should not add session_id error when truncation error exists"
    );
    // The agent-text warning is a separate concern and is still added.
    assert!(updated.warnings.is_some());
    assert!(text(&updated.warnings.unwrap()).contains("No agent_messages"));
}

#[test]
fn test_agent_messages_size_limit() {
    let large_message = vec![b'x'; 11 * 1024 * 1024];
    let result = CodexResult {
        success: true,
        session_id: b"test-session".to_vec(),
        agent_messages: large_message,
        agent_messages_truncated: false,
        all_messages: Vec::new(),
        all_messages_truncated: false,
        error: None,
        warnings: None,
    };

    assert!(result.agent_messages.len() > 10 * 1024 * 1024);
    assert!(!result.agent_messages_truncated);
}

#[test]
fn test_agent_messages_truncation_flag() {
    let result = CodexResult {
        success: true,
        session_id: b"test-session".to_vec(),
        agent_messages: b"[... Agent messages truncated due to size limit ...]".to_vec(),
        agent_messages_truncated: true,
        all_messages: Vec::new(),
        all_messages_truncated: false,
        error: None,
        warnings: None,
    };

    assert!(result.agent_messages_truncated);
    assert!(text(&result.agent_messages).contains("truncated"));
}

#[test]
fn test_all_messages_limit() {
    let mut result = CodexResult {
        success: true,
        session_id: b"test-session".to_vec(),
        agent_messages: b"test messages".to_vec(),
        agent_messages_truncated: false,
        all_messages: Vec::new(),
        all_messages_truncated: false,
        error: None,
        warnings: None,
    };

    for i in 0..50001 {
        if result.all_messages.len() < 50000 {
            let event = format!("{{\"id\":\"msg_{}\",\"type\":\"test\"}}", i);
            result.all_messages.push(event.into_bytes());
        } else {
            result.all_messages_truncated = true;
            break;
        }
    }

    assert_eq!(result.all_messages.len(), 50000);
    assert!(result.all_messages_truncated);
}

#[test]
fn test_error_and_warning_handling() {
    let result = CodexResult {
        success: false,
        session_id: Vec::new(),
        agent_messages: Vec::new(),
        agent_messages_truncated: false,
        all_messages: Vec::new(),
        all_messages_truncated: false,
        error: Some(b"Test error message".to_vec()),
        warnings: Some(b"Test warning message".to_vec()),
    };

    assert!(!result.success);
    assert!(result.error.is_some());
    assert!(result.warnings.is_some());
    assert_eq!(text(&result.error.unwrap()), "Test error message");
    assert_eq!(text(&result.warnings.unwrap()), "Test warning message");
}

#[test]
fn test_escape_prompt_with_special_chars() {
    // Argument-vector passing needs no escaping of the prompt text.
    let input = "Test with \"quotes\" and \n newlines and \t tabs";

    assert!(input.contains('"'));
    assert!(input.contains('\n'));
    assert!(input.contains('\t'));
}

#[test]
fn test_stderr_error_context() {
    let error_with_stderr = "Command failed\nStderr: Warning: Something went wrong".to_string();

    assert!(error_with_stderr.contains("Stderr:"));
    assert!(error_with_stderr.contains("Warning: Something went wrong"));
}

#[test]
fn test_escape_prompt_integration() {
    // Argument-vector passing handles platform escaping; nothing to do here.
}

#[test]
fn test_default_timeout_clamping() {
    let base = ServerConfig { additional_args: Vec::new(), timeout_secs: None };
    assert_eq!(default_timeout_secs(&base), 600);

    let zero = ServerConfig { additional_args: Vec::new(), timeout_secs: Some(0) };
    assert_eq!(default_timeout_secs(&zero), 600);

    let plain = ServerConfig { additional_args: Vec::new(), timeout_secs: Some(42) };
    assert_eq!(default_timeout_secs(&plain), 42);

    let huge = ServerConfig { additional_args: Vec::new(), timeout_secs: Some(5000) };
    assert_eq!(default_timeout_secs(&huge), 3600);

    assert_eq!(resolve_timeout(Some(10), &huge), 10);
    assert_eq!(resolve_timeout(None, &huge), 3600);
}

#[test]
fn test_timeout_result_message() {
    let r = timeout_result(600, None);
    assert!(!r.success);
    assert!(r.session_id.is_empty());
    assert!(r.agent_messages.is_empty());
    assert!(r.all_messages.is_empty());
    assert_eq!(
        text(&r.error.unwrap()),
        "Codex execution timed out after 600 seconds"
    );
    assert!(r.warnings.is_none());
}

#[test]
fn test_timeout_result_keeps_advisory() {
    let r = timeout_result(10, Some(b"supplement advisory".to_vec()));
    assert!(!r.success);
    assert!(text(&r.error.unwrap()).contains("timed out"));
    assert_eq!(text(&r.warnings.unwrap()), "supplement advisory");
}

#[test]
fn test_sanitize_flags_trims_and_drops_empties() {
    let raw = vec![
        b"  --profile ".to_vec(),
        b"   ".to_vec(),
        b"gpt-5".to_vec(),
        b"".to_vec(),
        b"\t--json\n".to_vec(),
    ];
    let cleaned = sanitize_flags(&raw);
    assert_eq!(
        cleaned,
        vec![b"--profile".to_vec(), b"gpt-5".to_vec(), b"--json".to_vec()]
    );
}
