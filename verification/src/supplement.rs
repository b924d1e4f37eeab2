//! Supplementary instructions (`AGENTS.md`) handling, on plain values:
//! given the bytes read from the file and its true size, decide what to
//! keep, clipped to a valid text prefix under the size limit, and which
//! advisory to record.  Reading the file itself happens outside the
//! library.

use vstd::prelude::*;

verus! {

use vstd::string::StringSliceAdditionalSpecFns;
use vstd::utf8::valid_utf8;

use crate::text::{append_bytes, is_ws_byte, spec_dec, u64_to_dec};

/// Byte limit for supplementary content handed to the child.
pub const MAX_AGENTS_SIZE: usize = 1048576;

/// Files larger than this are skipped outright.
pub const ABSOLUTE_MAX_AGENTS_SIZE: u64 = 10485760;

/// Relies on str::from_utf8: it accepts exactly the valid UTF-8 byte
/// sequences.
#[verifier::external_body]
fn utf8_check(b: &[u8]) -> (r: bool)
    ensures
        r == valid_utf8(b@),
{
    core::str::from_utf8(b).is_ok()
}

/// Nothing but ASCII whitespace.
pub open spec fn is_blank(s: Seq<u8>) -> bool {
    forall|i: int| 0 <= i < s.len() ==> is_ws_byte(s[i])
}

fn blank_check(s: &[u8]) -> (r: bool)
    ensures
        r == is_blank(s@),
{
    let mut i: usize = 0;
    while i < s.len()
        invariant
            i <= s@.len(),
            forall|k: int| 0 <= k < i ==> is_ws_byte(s@[k]),
        decreases s@.len() - i,
    {
        let b = s[i];
        if !(b == 32 || b == 9 || b == 10 || b == 13 || b == 11 || b == 12) {
            return false;
        }
        i += 1;
    }
    true
}

pub open spec fn spec_oversize_warning(file_size: u64) -> Seq<u8> {
    "AGENTS.md is ".spec_bytes() + spec_dec(file_size as nat)
        + " bytes, exceeding the absolute maximum of 10485760 bytes and will be skipped.".spec_bytes()
}

pub open spec fn spec_trunc_warning(file_size: u64, end: int) -> Seq<u8> {
    "AGENTS.md is ".spec_bytes() + spec_dec(file_size as nat)
        + " bytes, exceeding the 1048576 byte limit and was truncated to ".spec_bytes() + spec_dec(
        end as nat,
    ) + " bytes.".spec_bytes()
}

pub open spec fn spec_invalid_utf8_warning() -> Seq<u8> {
    "AGENTS.md contains invalid UTF-8 and was skipped.".spec_bytes()
}

/// What became of the supplementary content.
pub struct ClipOutcome {
    /// The content to hand on, when any.
    pub content: Option<Vec<u8>>,
    /// The advisory to record, when any.
    pub warning: Option<Vec<u8>>,
}

/// Exactly what `clip_supplement` may hand back for these inputs.
pub open spec fn spec_clip_post(content: Seq<u8>, file_size: u64, r: ClipOutcome) -> bool {
    if file_size > ABSOLUTE_MAX_AGENTS_SIZE {
        r.content is None && crate::codex::opt_bytes(r.warning) == Some(
            spec_oversize_warning(file_size),
        )
    } else if content.len() == 0 {
        r.content is None && r.warning is None
    } else if file_size <= content.len() && is_blank(content) {
        r.content is None && r.warning is None
    } else if content.len() > MAX_AGENTS_SIZE {
        match (r.content, r.warning) {
            (Some(p), Some(w)) => exists|e: int|
                0 < e <= MAX_AGENTS_SIZE && #[trigger] valid_utf8(content.take(e)) && p@
                    == content.take(e) && w@ == spec_trunc_warning(file_size, e) && forall|k: int|
                    e < k <= MAX_AGENTS_SIZE ==> !valid_utf8(content.take(k)),
            (None, Some(w)) => w@ == spec_invalid_utf8_warning() && forall|k: int|
                0 < k <= MAX_AGENTS_SIZE ==> !valid_utf8(#[trigger] content.take(k)),
            _ => false,
        }
    } else {
        if valid_utf8(content) {
            crate::codex::opt_bytes(r.content) == Some(content) && r.warning is None
        } else {
            r.content is None && crate::codex::opt_bytes(r.warning) == Some(
                spec_invalid_utf8_warning(),
            )
        }
    }
}

fn oversize_warning(file_size: u64) -> (r: Vec<u8>)
    ensures
        r@ == spec_oversize_warning(file_size),
{
    let mut w: Vec<u8> = Vec::new();
    append_bytes(&mut w, "AGENTS.md is ".as_bytes());
    let digits = u64_to_dec(file_size);
    append_bytes(&mut w, digits.as_slice());
    append_bytes(
        &mut w,
        " bytes, exceeding the absolute maximum of 10485760 bytes and will be skipped.".as_bytes(),
    );
    proof {
        assert(w@ =~= spec_oversize_warning(file_size));
    }
    w
}

fn trunc_warning(file_size: u64, end: usize) -> (r: Vec<u8>)
    ensures
        r@ == spec_trunc_warning(file_size, end as int),
{
    let mut w: Vec<u8> = Vec::new();
    append_bytes(&mut w, "AGENTS.md is ".as_bytes());
    let digits = u64_to_dec(file_size);
    append_bytes(&mut w, digits.as_slice());
    append_bytes(&mut w, " bytes, exceeding the 1048576 byte limit and was truncated to ".as_bytes());
    let end_digits = u64_to_dec(end as u64);
    append_bytes(&mut w, end_digits.as_slice());
    append_bytes(&mut w, " bytes.".as_bytes());
    proof {
        assert(w@ =~= spec_trunc_warning(file_size, end as int));
    }
    w
}

/// Decides what to keep of the supplementary file: nothing for an
/// absurdly large, empty, all-whitespace or invalid file; the whole text
/// when it fits; otherwise the longest valid text prefix under the limit,
/// with an advisory.  `content` is what was read (possibly less than the
/// whole file), `file_size` the file's true size.
pub fn clip_supplement(content: &Vec<u8>, file_size: u64) -> (r: ClipOutcome)
    ensures
        spec_clip_post(content@, file_size, r),
{
    if file_size > ABSOLUTE_MAX_AGENTS_SIZE {
        return ClipOutcome { content: None, warning: Some(oversize_warning(file_size)) };
    }
    if content.len() == 0 {
        return ClipOutcome { content: None, warning: None };
    }
    if file_size <= content.len() as u64 && blank_check(content.as_slice()) {
        return ClipOutcome { content: None, warning: None };
    }
    if content.len() > MAX_AGENTS_SIZE {
        let mut end: usize = MAX_AGENTS_SIZE;
        while end > 0
            invariant
                end <= MAX_AGENTS_SIZE,
                MAX_AGENTS_SIZE < content@.len(),
                file_size <= ABSOLUTE_MAX_AGENTS_SIZE,
                !(file_size <= content@.len() && is_blank(content@)),
                forall|k: int|
                    end < k <= MAX_AGENTS_SIZE ==> !valid_utf8(#[trigger] content@.take(k)),
            decreases end,
        {
            let prefix = vstd::slice::slice_subrange(content.as_slice(), 0, end);
            proof {
                assert(prefix@ =~= content@.take(end as int));
            }
            if utf8_check(prefix) {
                let kept = vstd::slice::slice_to_vec(prefix);
                let r = ClipOutcome {
                    content: Some(kept),
                    warning: Some(trunc_warning(file_size, end)),
                };
                proof {
                    let e = end as int;
                    assert(0 < e <= MAX_AGENTS_SIZE && valid_utf8(content@.take(e)) && kept@
                        == content@.take(e) && spec_trunc_warning(file_size, e)
                        == spec_trunc_warning(file_size, e) && forall|k: int|
                        e < k <= MAX_AGENTS_SIZE ==> !valid_utf8(#[trigger] content@.take(k)));
                }
                return r;
            }
            end -= 1;
        }
        return ClipOutcome {
            content: None,
            warning: Some(
                vstd::slice::slice_to_vec(
                    "AGENTS.md contains invalid UTF-8 and was skipped.".as_bytes(),
                ),
            ),
        };
    }
    if utf8_check(content.as_slice()) {
        let kept = vstd::slice::slice_to_vec(content.as_slice());
        ClipOutcome { content: Some(kept), warning: None }
    } else {
        ClipOutcome {
            content: None,
            warning: Some(
                vstd::slice::slice_to_vec(
                    "AGENTS.md contains invalid UTF-8 and was skipped.".as_bytes(),
                ),
            ),
        }
    }
}

/// Wraps the supplementary content and the instruction text into the
/// prompt handed to the child.
pub fn compose_prompt(supplement: &[u8], prompt: &[u8]) -> (r: Vec<u8>)
    ensures
        r@ == "<system_prompt>\n".spec_bytes() + supplement@ + "\n</system_prompt>\n\n".spec_bytes()
            + prompt@,
{
    let mut v: Vec<u8> = Vec::new();
    append_bytes(&mut v, "<system_prompt>\n".as_bytes());
    append_bytes(&mut v, supplement);
    append_bytes(&mut v, "\n</system_prompt>\n\n".as_bytes());
    append_bytes(&mut v, prompt);
    proof {
        assert(v@ =~= "<system_prompt>\n".spec_bytes() + supplement@
            + "\n</system_prompt>\n\n".spec_bytes() + prompt@);
    }
    v
}

} // verus!
