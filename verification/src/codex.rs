//! The execution request, the aggregated result, and the result-level
//! operations: recording errors, joining warnings, final validation, exit
//! merging and the synthetic timeout result.
//!
//! All message text is held as raw bytes; callers render it as text at the
//! output boundary.

use vstd::prelude::*;

verus! {

use crate::msgs;
use crate::text;
use crate::text::{append_bytes, i32_to_dec, u64_to_dec, NL};

/// Default deadline, in seconds, when a request does not set one.
pub const DEFAULT_TIMEOUT_SECS: u64 = 600;

/// Ceiling on the deadline a configuration may choose.
pub const MAX_TIMEOUT_SECS: u64 = 3600;

/// Byte budget for a single line of stream output.
pub const MAX_LINE_LENGTH: usize = 1048576;

/// Byte budget for the accumulated diagnostic stream.
pub const MAX_STDERR_SIZE: usize = 1048576;

/// Byte budget for the accumulated agent text.
pub const MAX_AGENT_MESSAGES_SIZE: usize = 10485760;

/// Cumulative serialized-size budget for the kept event log.
pub const MAX_ALL_MESSAGES_SIZE: usize = 52428800;

/// One execution request.  Immutable once execution starts.
pub struct Options {
    /// Instruction text handed to the child as its final argument.
    pub prompt: String,
    /// Working directory the child runs in.
    pub working_dir: String,
    /// Resume identifier of an earlier session, if any.
    pub session_id: Option<String>,
    /// Extra invocation flags passed through to the child.
    pub additional_args: Vec<String>,
    /// Attachment file paths, one repeated flag each.
    pub image_paths: Vec<String>,
    /// Deadline in seconds; `None` falls back to the configured default.
    pub timeout_secs: Option<u64>,
}

/// Process-wide configuration, loaded once by the caller and passed in
/// explicitly.
pub struct ServerConfig {
    /// Extra invocation flags applied to every execution.
    pub additional_args: Vec<String>,
    /// Configured default deadline in seconds, if any.
    pub timeout_secs: Option<u64>,
}

/// The configured default deadline: a missing or zero value falls back to
/// the fixed default, and a value above the ceiling is clamped to it.
pub open spec fn spec_default_timeout(t: Option<u64>) -> u64 {
    match t {
        Some(t) => if 0 < t && t <= MAX_TIMEOUT_SECS {
            t
        } else if t > MAX_TIMEOUT_SECS {
            MAX_TIMEOUT_SECS
        } else {
            DEFAULT_TIMEOUT_SECS
        },
        None => DEFAULT_TIMEOUT_SECS,
    }
}

/// Default deadline in seconds for executions under this configuration.
pub fn default_timeout_secs(cfg: &ServerConfig) -> (r: u64)
    ensures
        r == spec_default_timeout(cfg.timeout_secs),
{
    match cfg.timeout_secs {
        Some(t) => {
            if 0 < t && t <= MAX_TIMEOUT_SECS {
                t
            } else if t > MAX_TIMEOUT_SECS {
                MAX_TIMEOUT_SECS
            } else {
                DEFAULT_TIMEOUT_SECS
            }
        },
        None => DEFAULT_TIMEOUT_SECS,
    }
}

/// The extra invocation flags this configuration applies to every
/// execution.
pub fn default_additional_args(cfg: &ServerConfig) -> (r: Vec<String>)
    ensures
        r@.len() == cfg.additional_args@.len(),
        forall|i: int|
            0 <= i < r@.len() ==> r@[i]@ == cfg.additional_args@[i]@,
{
    let mut out: Vec<String> = Vec::new();
    let mut i: usize = 0;
    while i < cfg.additional_args.len()
        invariant
            i <= cfg.additional_args@.len(),
            out@.len() == i,
            forall|k: int| 0 <= k < i ==> out@[k]@ == cfg.additional_args@[k]@,
        decreases cfg.additional_args@.len() - i,
    {
        out.push(cfg.additional_args[i].clone());
        i += 1;
    }
    out
}

/// The deadline for one request: the request's own value, else the
/// configured default.
pub fn resolve_timeout(requested: Option<u64>, cfg: &ServerConfig) -> (r: u64)
    ensures
        r == match requested {
            Some(t) => t,
            None => spec_default_timeout(cfg.timeout_secs),
        },
{
    match requested {
        Some(t) => t,
        None => default_timeout_secs(cfg),
    }
}

/// The aggregate built during one execution.
pub struct CodexResult {
    /// Starts true; flips to false on any detected failure and never
    /// resets.
    pub success: bool,
    /// Last non-empty session identifier seen on the event stream.
    pub session_id: Vec<u8>,
    /// Concatenated agent text, capped with a one-time marker.
    pub agent_messages: Vec<u8>,
    pub agent_messages_truncated: bool,
    /// Serialized form of every kept event object, in arrival order.
    pub all_messages: Vec<Vec<u8>>,
    pub all_messages_truncated: bool,
    /// Accumulated error text; appended to, never overwritten.
    pub error: Option<Vec<u8>>,
    /// Newline-joined advisory messages that do not imply failure.
    pub warnings: Option<Vec<u8>>,
}

/// Mathematical shadow of `CodexResult`.
#[verifier::ext_equal]
pub struct ResultModel {
    pub success: bool,
    pub session_id: Seq<u8>,
    pub agent: Seq<u8>,
    pub agent_truncated: bool,
    pub events: Seq<Seq<u8>>,
    pub events_truncated: bool,
    pub error: Option<Seq<u8>>,
    pub warnings: Option<Seq<u8>>,
}

pub open spec fn opt_bytes(o: Option<Vec<u8>>) -> Option<Seq<u8>> {
    match o {
        Some(v) => Some(v@),
        None => None,
    }
}

impl View for CodexResult {
    type V = ResultModel;

    open spec fn view(&self) -> ResultModel {
        ResultModel {
            success: self.success,
            session_id: self.session_id@,
            agent: self.agent_messages@,
            agent_truncated: self.agent_messages_truncated,
            events: self.all_messages@.map_values(|m: Vec<u8>| m@),
            events_truncated: self.all_messages_truncated,
            error: opt_bytes(self.error),
            warnings: opt_bytes(self.warnings),
        }
    }
}

impl CodexResult {
    /// The empty aggregate an execution starts from.
    pub fn empty() -> (r: CodexResult)
        ensures
            r@ == spec_empty_result(),
    {
        let r = CodexResult {
            success: true,
            session_id: Vec::new(),
            agent_messages: Vec::new(),
            agent_messages_truncated: false,
            all_messages: Vec::new(),
            all_messages_truncated: false,
            error: None,
            warnings: None,
        };
        proof {
            assert(r@ =~= spec_empty_result());
        }
        r
    }
}

pub open spec fn spec_empty_result() -> ResultModel {
    ResultModel {
        success: true,
        session_id: Seq::empty(),
        agent: Seq::empty(),
        agent_truncated: false,
        events: Seq::empty(),
        events_truncated: false,
        error: None,
        warnings: None,
    }
}

/// A warning joined onto the existing ones with a newline separator.
pub open spec fn spec_push_warning(w: Option<Seq<u8>>, msg: Seq<u8>) -> Option<Seq<u8>> {
    match w {
        Some(cur) => if cur.len() > 0 {
            Some(cur + seq![NL] + msg)
        } else {
            Some(cur + msg)
        },
        None => Some(msg),
    }
}

/// Joins an advisory message onto the warnings gathered so far.
pub fn push_warning(existing: Option<Vec<u8>>, warning: &[u8]) -> (r: Option<Vec<u8>>)
    ensures
        opt_bytes(r) == spec_push_warning(opt_bytes(existing), warning@),
{
    match existing {
        Some(mut cur) => {
            if cur.len() > 0 {
                cur.push(NL);
            }
            append_bytes(&mut cur, warning);
            Some(cur)
        },
        None => {
            let mut v: Vec<u8> = Vec::new();
            append_bytes(&mut v, warning);
            proof {
                assert(v@ =~= warning@);
            }
            Some(v)
        },
    }
}

/// An error appended to the ones recorded so far, never overwriting them.
pub open spec fn spec_append_error(err: Option<Seq<u8>>, msg: Seq<u8>) -> Option<Seq<u8>> {
    match err {
        Some(e) => if e.len() > 0 {
            Some(e + seq![NL] + msg)
        } else {
            Some(msg)
        },
        None => Some(msg),
    }
}

/// Joins an error message onto the errors recorded so far.
pub(crate) fn push_error(existing: Option<Vec<u8>>, msg: &[u8]) -> (r: Option<Vec<u8>>)
    ensures
        opt_bytes(r) == spec_append_error(opt_bytes(existing), msg@),
{
    match existing {
        Some(mut cur) => {
            if cur.len() > 0 {
                cur.push(NL);
                append_bytes(&mut cur, msg);
                Some(cur)
            } else {
                let mut v: Vec<u8> = Vec::new();
                append_bytes(&mut v, msg);
                proof {
                    assert(v@ =~= msg@);
                }
                Some(v)
            }
        },
        None => {
            let mut v: Vec<u8> = Vec::new();
            append_bytes(&mut v, msg);
            proof {
                assert(v@ =~= msg@);
            }
            Some(v)
        },
    }
}

/// The message recorded for a line that failed to parse.
pub open spec fn spec_parse_error_msg(err_text: Seq<u8>, line: Seq<u8>) -> Seq<u8> {
    msgs::parse_error_prefix() + err_text + msgs::parse_error_mid() + line
}

/// A parse failure: the run is marked failed and the message is appended
/// to any earlier error.
pub open spec fn spec_record_parse_error(r: ResultModel, err_text: Seq<u8>, line: Seq<u8>) -> ResultModel {
    ResultModel {
        success: false,
        error: spec_append_error(r.error, spec_parse_error_msg(err_text, line)),
        ..r
    }
}

/// Records a failed parse of `line`, whose parser message was `err_text`.
pub fn record_parse_error(result: &mut CodexResult, err_text: &[u8], line: &[u8])
    ensures
        final(result)@ == spec_record_parse_error(old(result)@, err_text@, line@),
{
    let mut msg: Vec<u8> = Vec::new();
    append_bytes(&mut msg, "JSON parse error: ".as_bytes());
    append_bytes(&mut msg, err_text);
    append_bytes(&mut msg, ". Line: ".as_bytes());
    append_bytes(&mut msg, line);
    proof {
        assert(msg@ =~= spec_parse_error_msg(err_text@, line@));
    }
    result.success = false;
    let prior = result.error.take();
    result.error = push_error(prior, msg.as_slice());
}

/// Whether the final validation pass runs.
#[derive(Clone, Copy, PartialEq, Eq, Structural)]
pub enum ValidationMode {
    /// Check the required fields.
    Full,
    /// Leave the result as built; its error is already well defined.
    Skip,
}

/// Final validation: a missing session identifier becomes an error only if
/// no earlier error exists; empty agent text becomes a warning, never a
/// failure.
pub open spec fn spec_enforce(r: ResultModel, mode: ValidationMode) -> ResultModel {
    if mode == ValidationMode::Skip {
        r
    } else {
        let r1 = if r.session_id.len() == 0 && r.error is None {
            ResultModel { success: false, error: Some(msgs::missing_session_msg()), ..r }
        } else {
            r
        };
        if r1.agent.len() == 0 {
            ResultModel {
                warnings: spec_push_warning(r1.warnings, msgs::no_agent_messages_msg()),
                ..r1
            }
        } else {
            r1
        }
    }
}

/// Validates the required fields of a finished result.
pub fn enforce_required_fields(result: CodexResult, mode: ValidationMode) -> (r: CodexResult)
    ensures
        r@ == spec_enforce(result@, mode),
{
    if matches!(mode, ValidationMode::Skip) {
        return result;
    }
    let mut r = result;
    if r.session_id.len() == 0 && r.error.is_none() {
        r.success = false;
        r.error = Some(
            vstd::slice::slice_to_vec("Failed to get SESSION_ID from the codex session.".as_bytes()),
        );
    }
    if r.agent_messages.len() == 0 {
        let prior = r.warnings.take();
        r.warnings = push_warning(
            prior,
            "No agent_messages returned; check Codex CLI output or enable richer logging if needed.".as_bytes(),
        );
    }
    r
}

/// An already-recorded error is never masked: validation leaves the error
/// text of a result untouched whenever one exists, and in particular never
/// adds the missing-session-identifier message on top of it.
pub proof fn lemma_error_not_masked(r: ResultModel, mode: ValidationMode)
    requires
        r.error is Some,
    ensures
        spec_enforce(r, mode).error == r.error,
        spec_enforce(r, mode).success == r.success,
{
}

/// The rendering of a process exit code.
pub open spec fn spec_exit_code_text(code: Option<i32>) -> Seq<u8> {
    match code {
        Some(c) => msgs::some_prefix() + text::spec_i32_dec(c as int) + msgs::close_paren(),
        None => msgs::none_text(),
    }
}

fn exit_code_text(code: Option<i32>) -> (r: Vec<u8>)
    ensures
        r@ == spec_exit_code_text(code),
{
    match code {
        Some(c) => {
            let mut v: Vec<u8> = Vec::new();
            append_bytes(&mut v, "Some(".as_bytes());
            let digits = i32_to_dec(c);
            append_bytes(&mut v, digits.as_slice());
            append_bytes(&mut v, ")".as_bytes());
            proof {
                assert(v@ =~= spec_exit_code_text(code));
            }
            v
        },
        None => vstd::slice::slice_to_vec("None".as_bytes()),
    }
}

/// Exit merging: a non-zero exit marks failure and composes the final
/// error from any recorded error (else a generic exit message), with the
/// diagnostic output appended as context; a zero exit records non-empty
/// diagnostic output as a warning instead.
pub open spec fn spec_finalize_exit(
    r: ResultModel,
    exit_ok: bool,
    exit_code: Option<i32>,
    stderr: Seq<u8>,
) -> ResultModel {
    if !exit_ok {
        let base = match r.error {
            Some(e) => e,
            None => msgs::exit_code_prefix() + spec_exit_code_text(exit_code),
        };
        let full = if stderr.len() > 0 {
            base + msgs::stderr_context_prefix() + stderr
        } else {
            base
        };
        ResultModel { success: false, error: Some(full), ..r }
    } else if stderr.len() > 0 {
        ResultModel { warnings: Some(stderr), ..r }
    } else {
        r
    }
}

/// Merges the process exit status and the drained diagnostic output into
/// the result.
pub fn finalize_exit(
    result: &mut CodexResult,
    exit_ok: bool,
    exit_code: Option<i32>,
    stderr_output: &[u8],
)
    ensures
        final(result)@ == spec_finalize_exit(old(result)@, exit_ok, exit_code, stderr_output@),
{
    if !exit_ok {
        result.success = false;
        let mut base: Vec<u8> = match result.error.take() {
            Some(e) => e,
            None => {
                let mut b: Vec<u8> = Vec::new();
                append_bytes(&mut b, "codex command failed with exit code: ".as_bytes());
                let code = exit_code_text(exit_code);
                append_bytes(&mut b, code.as_slice());
                proof {
                    assert(b@ =~= msgs::exit_code_prefix() + spec_exit_code_text(exit_code));
                }
                b
            },
        };
        if stderr_output.len() > 0 {
            append_bytes(&mut base, "\nStderr: ".as_bytes());
            append_bytes(&mut base, stderr_output);
        }
        result.error = Some(base);
    } else if stderr_output.len() > 0 {
        result.warnings = Some(vstd::slice::slice_to_vec(stderr_output));
    }
}

/// The supplementary-content advisory, if any, joined in front of the
/// warnings gathered during the run.
pub open spec fn spec_merge_front_warning(r: ResultModel, advisory: Option<Seq<u8>>) -> ResultModel {
    match advisory {
        Some(w) => ResultModel {
            warnings: match r.warnings {
                Some(existing) => Some(w + seq![NL] + existing),
                None => Some(w),
            },
            ..r
        },
        None => r,
    }
}

/// Joins an advisory computed before launch in front of the run's
/// warnings.
pub fn merge_front_warning(result: &mut CodexResult, advisory: &Option<Vec<u8>>)
    ensures
        final(result)@ == spec_merge_front_warning(old(result)@, opt_bytes(*advisory)),
{
    match advisory {
        Some(w) => {
            let merged: Vec<u8> = match result.warnings.take() {
                Some(existing) => {
                    let mut m: Vec<u8> = Vec::new();
                    append_bytes(&mut m, w.as_slice());
                    m.push(NL);
                    append_bytes(&mut m, existing.as_slice());
                    proof {
                        assert(m@ =~= w@ + seq![NL] + existing@);
                    }
                    m
                },
                None => {
                    let mut m: Vec<u8> = Vec::new();
                    append_bytes(&mut m, w.as_slice());
                    proof {
                        assert(m@ =~= w@);
                    }
                    m
                },
            };
            result.warnings = Some(merged);
        },
        None => (),
    }
}

/// The synthetic terminal result produced when the deadline fires: failed,
/// empty, with a fixed timed-out message and only the pre-launch advisory
/// carried over.  It already satisfies the validation invariants, so the
/// validation pass is skipped for it.
pub open spec fn spec_timeout_result(timeout_secs: u64, advisory: Option<Seq<u8>>) -> ResultModel {
    ResultModel {
        success: false,
        session_id: Seq::empty(),
        agent: Seq::empty(),
        agent_truncated: false,
        events: Seq::empty(),
        events_truncated: false,
        error: Some(
            msgs::timeout_msg_prefix() + text::spec_dec(timeout_secs as nat)
                + msgs::timeout_msg_suffix(),
        ),
        warnings: advisory,
    }
}

/// Builds the synthetic result for an execution abandoned at its deadline.
pub fn timeout_result(timeout_secs: u64, advisory: Option<Vec<u8>>) -> (r: CodexResult)
    ensures
        r@ == spec_timeout_result(timeout_secs, opt_bytes(advisory)),
{
    let mut err: Vec<u8> = Vec::new();
    append_bytes(&mut err, "Codex execution timed out after ".as_bytes());
    let digits = u64_to_dec(timeout_secs);
    append_bytes(&mut err, digits.as_slice());
    append_bytes(&mut err, " seconds".as_bytes());
    proof {
        assert(err@ =~= msgs::timeout_msg_prefix() + text::spec_dec(timeout_secs as nat)
            + msgs::timeout_msg_suffix());
    }
    let r = CodexResult {
        success: false,
        session_id: Vec::new(),
        agent_messages: Vec::new(),
        agent_messages_truncated: false,
        all_messages: Vec::new(),
        all_messages_truncated: false,
        error: Some(err),
        warnings: advisory,
    };
    proof {
        assert(r@ =~= spec_timeout_result(timeout_secs, opt_bytes(advisory)));
    }
    r
}

/// The complete aggregation pipeline for one finished execution over its
/// captured streams: the event drain folded over every event-stream line,
/// the diagnostic drain over every diagnostic line, exit merging, the
/// pre-launch advisory, and the final validation pass.
pub open spec fn spec_complete_run(
    stdout_data: Seq<u8>,
    stderr_data: Seq<u8>,
    exit_ok: bool,
    exit_code: Option<i32>,
    advisory: Option<Seq<u8>>,
) -> ResultModel {
    let d = crate::drain::spec_fold_stdout(
        crate::drain::spec_empty_drain(),
        crate::reader::split_lines(stdout_data),
        MAX_LINE_LENGTH as int,
    );
    let e = crate::drain::spec_fold_stderr(
        crate::drain::StderrModel { output: Seq::empty(), truncated: false },
        crate::reader::split_lines(stderr_data),
        MAX_LINE_LENGTH as int,
    );
    let merged = spec_merge_front_warning(
        spec_finalize_exit(d.result, exit_ok, exit_code, e.output),
        advisory,
    );
    spec_enforce(merged, ValidationMode::Full)
}

/// Aggregates one finished execution from its captured streams and exit
/// status into the final validated result.
pub fn complete_run(
    stdout_data: &[u8],
    stderr_data: &[u8],
    exit_ok: bool,
    exit_code: Option<i32>,
    advisory: Option<Vec<u8>>,
) -> (r: CodexResult)
    ensures
        r@ == spec_complete_run(stdout_data@, stderr_data@, exit_ok, exit_code, opt_bytes(advisory)),
{
    let d = crate::drain::drain_stdout(stdout_data, MAX_LINE_LENGTH);
    let e = crate::drain::drain_stderr(stderr_data, MAX_LINE_LENGTH);
    let mut result = d.result;
    finalize_exit(&mut result, exit_ok, exit_code, e.output.as_slice());
    merge_front_warning(&mut result, &advisory);
    enforce_required_fields(result, ValidationMode::Full)
}

/// Cleaning of configured flags: each trimmed of surrounding ASCII
/// whitespace, empty ones dropped, order kept.
pub open spec fn spec_sanitize_flags(args: Seq<Seq<u8>>) -> Seq<Seq<u8>>
    decreases args.len(),
{
    if args.len() == 0 {
        Seq::empty()
    } else {
        let t = text::trim_ascii(args[0]);
        let rest = spec_sanitize_flags(args.skip(1));
        if t.len() > 0 {
            seq![t] + rest
        } else {
            rest
        }
    }
}

/// Cleans a configured flag list: trims each flag and drops the empty
/// ones.
pub fn sanitize_flags(raw: &Vec<Vec<u8>>) -> (r: Vec<Vec<u8>>)
    ensures
        r@.map_values(|v: Vec<u8>| v@) == spec_sanitize_flags(raw@.map_values(|v: Vec<u8>| v@)),
{
    let ghost all = raw@.map_values(|v: Vec<u8>| v@);
    let mut out: Vec<Vec<u8>> = Vec::new();
    let mut i: usize = 0;
    proof {
        assert(all.skip(0) =~= all);
        assert(out@.map_values(|v: Vec<u8>| v@) =~= Seq::<Seq<u8>>::empty());
    }
    while i < raw.len()
        invariant
            i <= raw@.len(),
            all == raw@.map_values(|v: Vec<u8>| v@),
            out@.map_values(|v: Vec<u8>| v@) + spec_sanitize_flags(all.skip(i as int))
                == spec_sanitize_flags(all),
        decreases raw@.len() - i,
    {
        let ghost before = out@.map_values(|v: Vec<u8>| v@);
        let ghost rem = all.skip(i as int);
        proof {
            assert(rem[0] == all[i as int]);
            assert(rem.skip(1) =~= all.skip(i + 1 as int));
        }
        let t = text::trim_ascii_ws(&raw[i]);
        if t.len() > 0 {
            out.push(t);
            proof {
                assert(out@.map_values(|v: Vec<u8>| v@) =~= before.push(text::trim_ascii(
                    all[i as int],
                )));
                assert(before + (seq![text::trim_ascii(all[i as int])] + spec_sanitize_flags(
                    all.skip(i + 1 as int),
                )) =~= before.push(text::trim_ascii(all[i as int])) + spec_sanitize_flags(
                    all.skip(i + 1 as int),
                ));
            }
        }
        i += 1;
    }
    proof {
        assert(all.skip(raw@.len() as int) =~= Seq::<Seq<u8>>::empty());
        assert(out@.map_values(|v: Vec<u8>| v@) + Seq::<Seq<u8>>::empty() =~= out@.map_values(
            |v: Vec<u8>| v@,
        ));
    }
    out
}

} // verus!
