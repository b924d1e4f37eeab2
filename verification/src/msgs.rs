//! The fixed message fragments that the engine writes into results:
//! truncation markers, error prefixes and advisory texts.

use vstd::prelude::*;

verus! {

use vstd::string::StringSliceAdditionalSpecFns;

/// Marker appended once when the accumulated agent text hits its cap.
pub open spec fn agent_trunc_marker() -> Seq<u8> {
    "\n[... Agent messages truncated due to size limit ...]".spec_bytes()
}

/// Marker recorded once when the diagnostic stream hits its cap.
pub open spec fn stderr_trunc_marker() -> Seq<u8> {
    "[... stderr truncated due to size limit ...]".spec_bytes()
}

/// Error recorded when an event line exceeds the line-length budget.
pub open spec fn oversize_line_msg() -> Seq<u8> {
    "Output line exceeded 1048576 byte limit and was truncated, cannot parse JSON.".spec_bytes()
}

pub open spec fn parse_error_prefix() -> Seq<u8> {
    "JSON parse error: ".spec_bytes()
}

pub open spec fn parse_error_mid() -> Seq<u8> {
    ". Line: ".spec_bytes()
}

pub open spec fn codex_error_prefix() -> Seq<u8> {
    "codex error: ".spec_bytes()
}

pub open spec fn exit_code_prefix() -> Seq<u8> {
    "codex command failed with exit code: ".spec_bytes()
}

pub open spec fn stderr_context_prefix() -> Seq<u8> {
    "\nStderr: ".spec_bytes()
}

pub open spec fn timeout_msg_prefix() -> Seq<u8> {
    "Codex execution timed out after ".spec_bytes()
}

pub open spec fn timeout_msg_suffix() -> Seq<u8> {
    " seconds".spec_bytes()
}

pub open spec fn missing_session_msg() -> Seq<u8> {
    "Failed to get SESSION_ID from the codex session.".spec_bytes()
}

pub open spec fn no_agent_messages_msg() -> Seq<u8> {
    "No agent_messages returned; check Codex CLI output or enable richer logging if needed.".spec_bytes()
}

/// Event kinds that contain either of these mark the run as failed.
pub open spec fn fail_needle() -> Seq<u8> {
    "fail".spec_bytes()
}

pub open spec fn error_needle() -> Seq<u8> {
    "error".spec_bytes()
}

/// The item type whose text is accumulated as agent output.
pub open spec fn agent_message_kind() -> Seq<u8> {
    "agent_message".spec_bytes()
}

pub open spec fn some_prefix() -> Seq<u8> {
    "Some(".spec_bytes()
}

pub open spec fn close_paren() -> Seq<u8> {
    ")".spec_bytes()
}

pub open spec fn none_text() -> Seq<u8> {
    "None".spec_bytes()
}

pub open spec fn minus_sign() -> Seq<u8> {
    "-".spec_bytes()
}

} // verus!
