//! The two drain loops.
//!
//! The event-stream drain folds each line into the accumulating result:
//! kept events under a cumulative size budget, the session identifier,
//! capped agent text, and failure detection.  The first oversized or
//! unparseable line latches drain-only mode: from then on every line is
//! consumed and discarded, so the child can never stall on a full pipe,
//! and the child is asked to stop once.
//!
//! The diagnostic drain accumulates its own size-capped text,
//! independently of the event drain.

use vstd::prelude::*;

verus! {

use crate::codex::{
    opt_bytes, push_error, record_parse_error, spec_append_error, spec_empty_result,
    spec_record_parse_error, CodexResult, ResultModel, MAX_AGENT_MESSAGES_SIZE,
    MAX_ALL_MESSAGES_SIZE, MAX_STDERR_SIZE,
};
use crate::events::{
    is_failure_kind, item_fields_of, line_parse_of, object_json_of, parse_event_line,
    parse_item_fields, serialized_object, spec_failure_kind, EventFields, LineParse,
};
use crate::msgs;
use crate::reader::{clip, line_truncated, split_lines, FeedOut, LineAssembler};
use crate::text::{append_bytes, bytes_eq, ends_with, strip_cr, trim_trailing_cr, NL};

/// Per-execution state of the event-stream drain loop.
pub struct StdoutDrain {
    /// The aggregate being built.
    pub result: CodexResult,
    /// Sticky drain-only latch, set by the first bad line.
    pub parse_error_seen: bool,
    /// Cumulative serialized size of the kept events.
    pub events_size: usize,
}

/// Mathematical shadow of `StdoutDrain`.
#[verifier::ext_equal]
pub struct DrainModel {
    pub result: ResultModel,
    pub parse_error_seen: bool,
    pub events_size: nat,
}

impl View for StdoutDrain {
    type V = DrainModel;

    open spec fn view(&self) -> DrainModel {
        DrainModel {
            result: self.result@,
            parse_error_seen: self.parse_error_seen,
            events_size: self.events_size as nat,
        }
    }
}

/// The drain state an execution starts from.
pub open spec fn spec_empty_drain() -> DrainModel {
    DrainModel { result: spec_empty_result(), parse_error_seen: false, events_size: 0 }
}

/// Appending one agent text fragment: nothing once truncated; the marker,
/// once, when the fragment (plus its separating line break) would push the
/// text past the cap; otherwise the fragment, separated from earlier
/// non-empty text by a line break.
pub open spec fn spec_append_agent(r: ResultModel, text: Seq<u8>) -> ResultModel {
    if r.agent_truncated {
        r
    } else {
        let sep: int = if r.agent.len() > 0 && text.len() > 0 {
            1
        } else {
            0
        };
        if r.agent.len() + text.len() + sep > MAX_AGENT_MESSAGES_SIZE {
            ResultModel {
                agent: r.agent + msgs::agent_trunc_marker(),
                agent_truncated: true,
                ..r
            }
        } else if sep == 1 {
            ResultModel { agent: r.agent + seq![NL] + text, ..r }
        } else {
            ResultModel { agent: r.agent + text, ..r }
        }
    }
}

/// Recording a failure event: the run is marked failed; the most specific
/// message available (nested `error.message` first, else the top-level
/// `message`) is appended to the error text.
pub open spec fn spec_record_failure(r: ResultModel, f: EventFields) -> ResultModel {
    if !spec_failure_kind(opt_bytes(f.kind)) {
        r
    } else {
        let msg = if f.error_is_object {
            opt_bytes(f.error_message)
        } else {
            opt_bytes(f.top_message)
        };
        match msg {
            Some(m) => ResultModel {
                success: false,
                error: spec_append_error(r.error, msgs::codex_error_prefix() + m),
                ..r
            },
            None => ResultModel { success: false, ..r },
        }
    }
}

/// Folding one parsed event into the state: the event object is kept while
/// the cumulative budget allows (the truncation flag is sticky and stops
/// all further keeping); a non-empty `thread_id` becomes the session
/// identifier, every later non-empty one overwriting the earlier; agent
/// message text is appended under its cap; a failure kind marks the run
/// failed.
pub open spec fn spec_event_step(
    d: DrainModel,
    f: EventFields,
    item: (Option<Vec<u8>>, Option<Vec<u8>>),
    obj: Option<Seq<u8>>,
) -> DrainModel {
    let d1 = match obj {
        Some(o) => if d.result.events_truncated {
            d
        } else if d.events_size + o.len() <= MAX_ALL_MESSAGES_SIZE {
            DrainModel {
                result: ResultModel { events: d.result.events.push(o), ..d.result },
                events_size: d.events_size + o.len(),
                ..d
            }
        } else {
            DrainModel { result: ResultModel { events_truncated: true, ..d.result }, ..d }
        },
        None => d,
    };
    let d2 = match opt_bytes(f.thread_id) {
        Some(tid) => if tid.len() > 0 {
            DrainModel { result: ResultModel { session_id: tid, ..d1.result }, ..d1 }
        } else {
            d1
        },
        None => d1,
    };
    let d3 = if opt_bytes(item.0) == Some(msgs::agent_message_kind()) {
        match opt_bytes(item.1) {
            Some(text) => DrainModel { result: spec_append_agent(d2.result, text), ..d2 },
            None => d2,
        }
    } else {
        d2
    };
    DrainModel { result: spec_record_failure(d3.result, f), ..d3 }
}

/// One line reaching the event drain.  In drain-only mode the line is
/// discarded.  An oversized line records the fixed error once and latches
/// drain-only mode, asking for the child to be stopped.  Otherwise the
/// line is stripped of trailing carriage returns; empty lines are skipped;
/// an unparseable line records a parse error and latches; a parsed line is
/// folded into the result.  The second component says whether the child
/// should be killed now.
pub open spec fn spec_line_step(d: DrainModel, content: Seq<u8>, truncated: bool) -> (
    DrainModel,
    bool,
) {
    if d.parse_error_seen {
        (d, false)
    } else if truncated {
        (
            DrainModel {
                result: ResultModel {
                    success: false,
                    error: spec_append_error(d.result.error, msgs::oversize_line_msg()),
                    ..d.result
                },
                parse_error_seen: true,
                ..d
            },
            true,
        )
    } else {
        let t = strip_cr(content);
        if t.len() == 0 {
            (d, false)
        } else {
            match line_parse_of(t) {
                LineParse::Bad { message } => (
                    DrainModel {
                        result: spec_record_parse_error(d.result, message@, t),
                        parse_error_seen: true,
                        ..d
                    },
                    true,
                ),
                LineParse::Parsed { fields } => (
                    spec_event_step(d, fields, item_fields_of(t), object_json_of(t)),
                    false,
                ),
            }
        }
    }
}

/// Appends one agent-message text fragment to the capped agent text.
fn append_agent(result: &mut CodexResult, text: &[u8])
    ensures
        final(result)@ == spec_append_agent(old(result)@, text@),
{
    if result.agent_messages_truncated {
        return ;
    }
    let sep: usize = if result.agent_messages.len() > 0 && text.len() > 0 {
        1
    } else {
        0
    };
    let fits: bool = match result.agent_messages.len().checked_add(text.len()) {
        Some(s) => match s.checked_add(sep) {
            Some(tot) => tot <= MAX_AGENT_MESSAGES_SIZE,
            None => false,
        },
        None => false,
    };
    if !fits {
        append_bytes(
            &mut result.agent_messages,
            "\n[... Agent messages truncated due to size limit ...]".as_bytes(),
        );
        result.agent_messages_truncated = true;
        proof {
            assert(result@ =~= spec_append_agent(old(result)@, text@));
        }
    } else if sep == 1 {
        result.agent_messages.push(NL);
        append_bytes(&mut result.agent_messages, text);
        proof {
            assert(result@.agent =~= old(result)@.agent + seq![NL] + text@);
            assert(result@ =~= spec_append_agent(old(result)@, text@));
        }
    } else {
        append_bytes(&mut result.agent_messages, text);
        proof {
            assert(result@ =~= spec_append_agent(old(result)@, text@));
        }
    }
}

impl StdoutDrain {
    /// The empty drain state an execution starts from.
    pub fn new() -> (r: StdoutDrain)
        ensures
            r@ == spec_empty_drain(),
    {
        let r = StdoutDrain {
            result: CodexResult::empty(),
            parse_error_seen: false,
            events_size: 0,
        };
        proof {
            assert(r@ =~= spec_empty_drain());
        }
        r
    }

    /// Folds one parsed event into the state.
    #[verifier::rlimit(50)]
    fn apply_event(
        &mut self,
        f: &EventFields,
        item: (Option<Vec<u8>>, Option<Vec<u8>>),
        obj: Option<Vec<u8>>,
    )
        ensures
            final(self)@ == spec_event_step(old(self)@, *f, item, opt_bytes(obj)),
    {
        let ghost d0 = self@;
        match obj {
            Some(o) => {
                if !self.result.all_messages_truncated {
                    let fits: Option<usize> = match self.events_size.checked_add(o.len()) {
                        Some(s) => if s <= MAX_ALL_MESSAGES_SIZE {
                            Some(s)
                        } else {
                            None
                        },
                        None => None,
                    };
                    match fits {
                        Some(s) => {
                            self.events_size = s;
                            let ghost before = self.result.all_messages@;
                            self.result.all_messages.push(o);
                            proof {
                                assert(self.result.all_messages@.map_values(|m: Vec<u8>| m@)
                                    =~= before.map_values(|m: Vec<u8>| m@).push(o@));
                            }
                        },
                        None => {
                            self.result.all_messages_truncated = true;
                        },
                    }
                }
            },
            None => (),
        }
        match &f.thread_id {
            Some(tid) => {
                if tid.len() > 0 {
                    self.result.session_id = vstd::slice::slice_to_vec(tid.as_slice());
                }
            },
            None => (),
        }
        let is_agent_message: bool = match &item.0 {
            Some(t) => bytes_eq(t.as_slice(), "agent_message".as_bytes()),
            None => false,
        };
        if is_agent_message {
            match &item.1 {
                Some(text) => {
                    append_agent(&mut self.result, text.as_slice());
                },
                None => (),
            }
        }
        if is_failure_kind(&f.kind) {
            self.result.success = false;
            let has_msg: bool;
            let mut msg: Vec<u8> = Vec::new();
            append_bytes(&mut msg, "codex error: ".as_bytes());
            if f.error_is_object {
                match &f.error_message {
                    Some(m) => {
                        append_bytes(&mut msg, m.as_slice());
                        has_msg = true;
                    },
                    None => {
                        has_msg = false;
                    },
                }
            } else {
                match &f.top_message {
                    Some(m) => {
                        append_bytes(&mut msg, m.as_slice());
                        has_msg = true;
                    },
                    None => {
                        has_msg = false;
                    },
                }
            }
            if has_msg {
                let prior = self.result.error.take();
                self.result.error = push_error(prior, msg.as_slice());
            }
        }
        proof {
            assert(self@ =~= spec_event_step(d0, *f, item, opt_bytes(obj)));
        }
    }

    /// Feeds one line read from the event stream into the drain.  Returns
    /// true when the child process should be asked to stop: exactly on the
    /// line that latches drain-only mode.
    pub fn on_line(&mut self, content: Vec<u8>, truncated: bool) -> (kill: bool)
        ensures
            final(self)@ == spec_line_step(old(self)@, content@, truncated).0,
            kill == spec_line_step(old(self)@, content@, truncated).1,
    {
        if self.parse_error_seen {
            return false;
        }
        if truncated {
            self.result.success = false;
            let prior = self.result.error.take();
            self.result.error = push_error(
                prior,
                "Output line exceeded 1048576 byte limit and was truncated, cannot parse JSON.".as_bytes(),
            );
            self.parse_error_seen = true;
            proof {
                assert(self@ =~= spec_line_step(old(self)@, content@, truncated).0);
            }
            return true;
        }
        let ghost c0 = content@;
        let mut t = content;
        trim_trailing_cr(&mut t);
        if t.len() == 0 {
            return false;
        }
        match parse_event_line(t.as_slice()) {
            LineParse::Bad { message } => {
                record_parse_error(&mut self.result, message.as_slice(), t.as_slice());
                self.parse_error_seen = true;
                proof {
                    assert(self@ =~= spec_line_step(old(self)@, c0, truncated).0);
                }
                true
            },
            LineParse::Parsed { fields } => {
                let item = parse_item_fields(t.as_slice());
                let obj = serialized_object(t.as_slice());
                proof {
                    assert(opt_bytes(obj) == object_json_of(t@));
                }
                self.apply_event(&fields, item, obj);
                proof {
                    assert(self@ =~= spec_line_step(old(self)@, c0, truncated).0);
                }
                false
            },
        }
    }
}

/// The event drain folded over every line of the stream, in order.
pub open spec fn spec_fold_stdout(d: DrainModel, lines: Seq<Seq<u8>>, max: int) -> DrainModel
    decreases lines.len(),
{
    if lines.len() == 0 {
        d
    } else {
        spec_fold_stdout(
            spec_line_step(d, clip(lines[0], max), line_truncated(lines[0], max)).0,
            lines.skip(1),
            max,
        )
    }
}

/// Runs the event drain over a complete captured stream.  Every byte is
/// consumed; the outcome is the fold of the per-line step over all lines.
pub fn drain_stdout(data: &[u8], max_line_len: usize) -> (r: StdoutDrain)
    requires
        max_line_len >= 1,
    ensures
        r@ == spec_fold_stdout(spec_empty_drain(), split_lines(data@), max_line_len as int),
{
    let ghost max = max_line_len as int;
    let mut lr = LineAssembler::new(max_line_len);
    let mut d = StdoutDrain::new();
    let mut pos: usize = 0;
    proof {
        assert(data@.skip(0) =~= data@);
    }
    while pos < data.len()
        invariant
            pos <= data@.len(),
            max == max_line_len as int,
            max >= 1,
            lr.wf(),
            lr.pending() == Seq::<u8>::empty(),
            !lr.overflowed(),
            lr.max() == max,
            spec_fold_stdout(spec_empty_drain(), split_lines(data@), max) == spec_fold_stdout(
                d@,
                split_lines(data@.skip(pos as int)),
                max,
            ),
        decreases data@.len() - pos,
    {
        let rem = vstd::slice::slice_subrange(data, pos, data.len());
        let ghost rems = data@.skip(pos as int);
        proof {
            assert(rem@ =~= rems);
        }
        let ghost d0 = d@;
        match lr.feed(rem) {
            FeedOut::Line { content, truncated, consumed } => {
                proof {
                    crate::reader::lemma_find_nl(rems);
                    let i = crate::reader::find_nl(rems);
                    assert(Seq::<u8>::empty() + rems.take(i) =~= rems.take(i));
                    assert(content@ == clip(rems.take(i), max));
                    assert(rems.take(i).len() == i);
                    assert(truncated == line_truncated(rems.take(i), max));
                    assert(data@.skip(pos + consumed) =~= rems.skip(i + 1));
                    assert(split_lines(rems) == seq![rems.take(i)] + split_lines(rems.skip(i + 1)));
                    assert(split_lines(rems)[0] == rems.take(i));
                    assert(split_lines(rems).skip(1) =~= split_lines(rems.skip(i + 1)));
                }
                d.on_line(content, truncated);
                proof {
                    let i = crate::reader::find_nl(rems);
                    assert(spec_fold_stdout(d0, split_lines(rems), max) == spec_fold_stdout(
                        d@,
                        split_lines(rems.skip(i + 1)),
                        max,
                    ));
                }
                pos = pos + consumed;
            },
            FeedOut::NeedMore => {
                proof {
                    crate::reader::lemma_find_nl(rems);
                    assert(Seq::<u8>::empty() + rems =~= rems);
                }
                match lr.finish() {
                    Some((content, truncated)) => {
                        proof {
                            assert(content@ == clip(rems, max));
                            assert(truncated == line_truncated(rems, max));
                            assert(split_lines(rems) =~= seq![rems]);
                            assert(split_lines(rems)[0] == rems);
                            assert(split_lines(rems).skip(1) =~= Seq::<Seq<u8>>::empty());
                        }
                        d.on_line(content, truncated);
                        proof {
                            assert(spec_fold_stdout(d0, split_lines(rems), max)
                                == spec_fold_stdout(d@, Seq::<Seq<u8>>::empty(), max));
                        }
                    },
                    None => {
                        proof {
                            assert(rems.len() > 0);
                            assert(max >= 1);
                            if rems.len() <= max {
                                assert(clip(rems, max) == rems);
                            } else {
                                assert(clip(rems, max) == rems.take(max));
                                assert(rems.take(max).len() == max);
                            }
                            assert(false);
                        }
                    },
                }
                pos = data.len();
                proof {
                    assert(data@.skip(pos as int) =~= Seq::<u8>::empty());
                }
            },
        }
    }
    proof {
        assert(data@.skip(pos as int) =~= Seq::<u8>::empty());
    }
    d
}

/// Per-execution state of the diagnostic-stream drain loop.
pub struct StderrDrain {
    /// The capped diagnostic text gathered so far.
    pub output: Vec<u8>,
    /// Sticky flag: the cap was hit and the marker recorded.
    pub truncated: bool,
}

/// Mathematical shadow of `StderrDrain`.
#[verifier::ext_equal]
pub struct StderrModel {
    pub output: Seq<u8>,
    pub truncated: bool,
}

impl View for StderrDrain {
    type V = StderrModel;

    open spec fn view(&self) -> StderrModel {
        StderrModel { output: self.output@, truncated: self.truncated }
    }
}

/// A line joined onto earlier output with a newline separator.
pub open spec fn spec_join_line(out: Seq<u8>, line: Seq<u8>) -> Seq<u8> {
    if out.len() > 0 {
        out + seq![NL] + line
    } else {
        out + line
    }
}

/// One line reaching the diagnostic drain: stripped of trailing carriage
/// returns, then kept under the size cap; when a line (plus separator)
/// would push the output past the cap, the marker is recorded once and
/// everything later is discarded.
pub open spec fn spec_stderr_step(m: StderrModel, content: Seq<u8>) -> StderrModel {
    let line = strip_cr(content);
    if m.output.len() + line.len() + 1 > MAX_STDERR_SIZE {
        if !m.truncated {
            StderrModel { output: spec_join_line(m.output, msgs::stderr_trunc_marker()), truncated: true }
        } else {
            m
        }
    } else if !m.truncated {
        StderrModel { output: spec_join_line(m.output, line), ..m }
    } else {
        m
    }
}

impl StderrDrain {
    /// The empty diagnostic drain an execution starts from.
    pub fn new() -> (r: StderrDrain)
        ensures
            r@ == (StderrModel { output: Seq::empty(), truncated: false }),
    {
        let r = StderrDrain { output: Vec::new(), truncated: false };
        proof {
            assert(r@ =~= StderrModel { output: Seq::empty(), truncated: false });
        }
        r
    }

    /// Feeds one line read from the diagnostic stream into the drain.
    pub fn on_line(&mut self, content: Vec<u8>)
        ensures
            final(self)@ == spec_stderr_step(old(self)@, content@),
    {
        let mut line = content;
        trim_trailing_cr(&mut line);
        let fits: bool = match self.output.len().checked_add(line.len()) {
            Some(s) => match s.checked_add(1) {
                Some(t) => t <= MAX_STDERR_SIZE,
                None => false,
            },
            None => false,
        };
        if !fits {
            if !self.truncated {
                if self.output.len() > 0 {
                    self.output.push(NL);
                }
                append_bytes(&mut self.output, "[... stderr truncated due to size limit ...]".as_bytes());
                self.truncated = true;
                proof {
                    assert(self@ =~= spec_stderr_step(old(self)@, content@));
                }
            }
        } else if !self.truncated {
            if self.output.len() > 0 {
                self.output.push(NL);
            }
            append_bytes(&mut self.output, line.as_slice());
            proof {
                assert(self@ =~= spec_stderr_step(old(self)@, content@));
            }
        }
    }
}

/// The diagnostic drain folded over every line of the stream, in order.
/// The reader's own truncation flag plays no part here: the clipped
/// content is all that is kept.
pub open spec fn spec_fold_stderr(m: StderrModel, lines: Seq<Seq<u8>>, max: int) -> StderrModel
    decreases lines.len(),
{
    if lines.len() == 0 {
        m
    } else {
        spec_fold_stderr(spec_stderr_step(m, clip(lines[0], max)), lines.skip(1), max)
    }
}

/// Runs the diagnostic drain over a complete captured stream.
pub fn drain_stderr(data: &[u8], max_line_len: usize) -> (r: StderrDrain)
    requires
        max_line_len >= 1,
    ensures
        r@ == spec_fold_stderr(
            StderrModel { output: Seq::empty(), truncated: false },
            split_lines(data@),
            max_line_len as int,
        ),
{
    let ghost max = max_line_len as int;
    let mut lr = LineAssembler::new(max_line_len);
    let mut d = StderrDrain::new();
    let mut pos: usize = 0;
    let ghost init = d@;
    proof {
        assert(data@.skip(0) =~= data@);
    }
    while pos < data.len()
        invariant
            pos <= data@.len(),
            max == max_line_len as int,
            max >= 1,
            lr.wf(),
            lr.pending() == Seq::<u8>::empty(),
            !lr.overflowed(),
            lr.max() == max,
            spec_fold_stderr(init, split_lines(data@), max) == spec_fold_stderr(
                d@,
                split_lines(data@.skip(pos as int)),
                max,
            ),
        decreases data@.len() - pos,
    {
        let rem = vstd::slice::slice_subrange(data, pos, data.len());
        let ghost rems = data@.skip(pos as int);
        proof {
            assert(rem@ =~= rems);
        }
        let ghost d0 = d@;
        match lr.feed(rem) {
            FeedOut::Line { content, truncated: _, consumed } => {
                proof {
                    crate::reader::lemma_find_nl(rems);
                    let i = crate::reader::find_nl(rems);
                    assert(Seq::<u8>::empty() + rems.take(i) =~= rems.take(i));
                    assert(content@ == clip(rems.take(i), max));
                    assert(rems.take(i).len() == i);
                    assert(data@.skip(pos + consumed) =~= rems.skip(i + 1));
                    assert(split_lines(rems) == seq![rems.take(i)] + split_lines(rems.skip(i + 1)));
                    assert(split_lines(rems)[0] == rems.take(i));
                    assert(split_lines(rems).skip(1) =~= split_lines(rems.skip(i + 1)));
                }
                d.on_line(content);
                proof {
                    let i = crate::reader::find_nl(rems);
                    assert(spec_fold_stderr(d0, split_lines(rems), max) == spec_fold_stderr(
                        d@,
                        split_lines(rems.skip(i + 1)),
                        max,
                    ));
                }
                pos = pos + consumed;
            },
            FeedOut::NeedMore => {
                proof {
                    crate::reader::lemma_find_nl(rems);
                    assert(Seq::<u8>::empty() + rems =~= rems);
                }
                match lr.finish() {
                    Some((content, _)) => {
                        proof {
                            assert(content@ == clip(rems, max));
                            assert(split_lines(rems) =~= seq![rems]);
                            assert(split_lines(rems)[0] == rems);
                            assert(split_lines(rems).skip(1) =~= Seq::<Seq<u8>>::empty());
                        }
                        d.on_line(content);
                        proof {
                            assert(spec_fold_stderr(d0, split_lines(rems), max)
                                == spec_fold_stderr(d@, Seq::<Seq<u8>>::empty(), max));
                        }
                    },
                    None => {
                        proof {
                            assert(rems.len() > 0);
                            assert(max >= 1);
                            if rems.len() <= max {
                                assert(clip(rems, max) == rems);
                            } else {
                                assert(clip(rems, max) == rems.take(max));
                                assert(rems.take(max).len() == max);
                            }
                            assert(false);
                        }
                    },
                }
                pos = data.len();
                proof {
                    assert(data@.skip(pos as int) =~= Seq::<u8>::empty());
                }
            },
        }
    }
    proof {
        assert(data@.skip(pos as int) =~= Seq::<u8>::empty());
    }
    d
}

/// Sum of the serialized sizes of a sequence of kept events.
pub open spec fn sum_len(s: Seq<Seq<u8>>) -> nat
    decreases s.len(),
{
    if s.len() == 0 {
        0
    } else {
        sum_len(s.drop_last()) + s.last().len()
    }
}

pub proof fn lemma_sum_len_push(s: Seq<Seq<u8>>, o: Seq<u8>)
    ensures
        sum_len(s.push(o)) == sum_len(s) + o.len(),
{
    assert(s.push(o).drop_last() =~= s);
    assert(s.push(o).last() == o);
}

/// The agent-text cap invariant: under the cap while untruncated; once
/// truncated, ending with the marker and never longer than the cap plus
/// the marker's length.
pub open spec fn agent_ok(r: ResultModel) -> bool {
    &&& (!r.agent_truncated ==> r.agent.len() <= MAX_AGENT_MESSAGES_SIZE)
    &&& (r.agent_truncated ==> r.agent.len() <= MAX_AGENT_MESSAGES_SIZE
        + msgs::agent_trunc_marker().len() && ends_with(r.agent, msgs::agent_trunc_marker()))
}

/// Well-formedness of the event-drain state: the size counter is exactly
/// the summed size of the kept events and stays under its budget, and the
/// agent text obeys its cap invariant.
pub open spec fn drain_wf(d: DrainModel) -> bool {
    &&& agent_ok(d.result)
    &&& d.events_size == sum_len(d.result.events)
    &&& d.events_size <= MAX_ALL_MESSAGES_SIZE
}

pub proof fn lemma_empty_drain_wf()
    ensures
        drain_wf(spec_empty_drain()),
{
}

pub proof fn lemma_append_agent_ok(r: ResultModel, text: Seq<u8>)
    requires
        agent_ok(r),
    ensures
        agent_ok(spec_append_agent(r, text)),
        r.agent_truncated ==> spec_append_agent(r, text) == r,
        !r.agent_truncated && spec_append_agent(r, text).agent_truncated ==> spec_append_agent(
            r,
            text,
        ).agent == r.agent + msgs::agent_trunc_marker(),
{
    if !r.agent_truncated {
        let a = spec_append_agent(r, text);
        if a.agent_truncated {
            let m = msgs::agent_trunc_marker();
            assert((r.agent + m).subrange(
                (r.agent + m).len() - m.len(),
                (r.agent + m).len() as int,
            ) =~= m);
        }
    }
}

pub proof fn lemma_event_step_wf(
    d: DrainModel,
    f: EventFields,
    item: (Option<Vec<u8>>, Option<Vec<u8>>),
    obj: Option<Seq<u8>>,
)
    requires
        drain_wf(d),
    ensures
        drain_wf(spec_event_step(d, f, item, obj)),
{
    let d1 = match obj {
        Some(o) => if d.result.events_truncated {
            d
        } else if d.events_size + o.len() <= MAX_ALL_MESSAGES_SIZE {
            DrainModel {
                result: ResultModel { events: d.result.events.push(o), ..d.result },
                events_size: d.events_size + o.len(),
                ..d
            }
        } else {
            DrainModel { result: ResultModel { events_truncated: true, ..d.result }, ..d }
        },
        None => d,
    };
    match obj {
        Some(o) => {
            if !d.result.events_truncated && d.events_size + o.len() <= MAX_ALL_MESSAGES_SIZE {
                lemma_sum_len_push(d.result.events, o);
            }
        },
        None => (),
    }
    assert(drain_wf(d1));
    lemma_append_agent_ok(
        match opt_bytes(f.thread_id) {
            Some(tid) => if tid.len() > 0 {
                ResultModel { session_id: tid, ..d1.result }
            } else {
                d1.result
            },
            None => d1.result,
        },
        match opt_bytes(item.1) {
            Some(t) => t,
            None => Seq::empty(),
        },
    );
}

/// Every per-line step preserves well-formedness of the drain state.
pub proof fn lemma_step_preserves_wf(d: DrainModel, content: Seq<u8>, truncated: bool)
    requires
        drain_wf(d),
    ensures
        drain_wf(spec_line_step(d, content, truncated).0),
{
    let t = strip_cr(content);
    if !d.parse_error_seen && !truncated && t.len() > 0 {
        match line_parse_of(t) {
            LineParse::Bad { message: _ } => (),
            LineParse::Parsed { fields } => {
                lemma_event_step_wf(d, fields, item_fields_of(t), object_json_of(t));
            },
        }
    }
}

/// Truncation idempotence of the agent text: however many further lines
/// arrive, the marker is appended exactly once.  A step that finds the
/// truncated flag set leaves the agent text untouched and the flag set;
/// the step that sets the flag appends exactly the marker; and the text
/// never grows past the cap plus the marker's length.
pub proof fn lemma_agent_truncation_idempotent(d: DrainModel, content: Seq<u8>, truncated: bool)
    requires
        agent_ok(d.result),
    ensures
        agent_ok(spec_line_step(d, content, truncated).0.result),
        d.result.agent_truncated ==> spec_line_step(d, content, truncated).0.result.agent
            == d.result.agent,
        d.result.agent_truncated ==> spec_line_step(d, content, truncated).0.result.agent_truncated,
        !d.result.agent_truncated && spec_line_step(d, content, truncated).0.result.agent_truncated
            ==> spec_line_step(d, content, truncated).0.result.agent == d.result.agent
            + msgs::agent_trunc_marker(),
{
    let t = strip_cr(content);
    if !d.parse_error_seen && !truncated && t.len() > 0 {
        match line_parse_of(t) {
            LineParse::Bad { message: _ } => (),
            LineParse::Parsed { fields } => {
                let d1 = match object_json_of(t) {
                    Some(o) => if d.result.events_truncated {
                        d
                    } else if d.events_size + o.len() <= MAX_ALL_MESSAGES_SIZE {
                        DrainModel {
                            result: ResultModel { events: d.result.events.push(o), ..d.result },
                            events_size: d.events_size + o.len(),
                            ..d
                        }
                    } else {
                        DrainModel {
                            result: ResultModel { events_truncated: true, ..d.result },
                            ..d
                        }
                    },
                    None => d,
                };
                let r2 = match opt_bytes(fields.thread_id) {
                    Some(tid) => if tid.len() > 0 {
                        ResultModel { session_id: tid, ..d1.result }
                    } else {
                        d1.result
                    },
                    None => d1.result,
                };
                match opt_bytes(item_fields_of(t).1) {
                    Some(text) => {
                        lemma_append_agent_ok(r2, text);
                    },
                    None => (),
                }
            },
        }
    }
}

/// Drain-on-error: once drain-only mode is latched, every further line is
/// consumed with no effect at all — no event, no text, no error, no
/// further kill request — and the latch never clears.  `drain_stdout`
/// folds this step over every line of its stream, so the stream is still
/// read to its end.
pub proof fn lemma_drain_only_mode(d: DrainModel, content: Seq<u8>, truncated: bool)
    requires
        d.parse_error_seen,
    ensures
        spec_line_step(d, content, truncated).0 == d,
        !spec_line_step(d, content, truncated).1,
{
}

/// Well-formedness of the whole drained outcome, however long the stream.
pub proof fn lemma_fold_preserves_wf(d: DrainModel, lines: Seq<Seq<u8>>, max: int)
    requires
        drain_wf(d),
    ensures
        drain_wf(spec_fold_stdout(d, lines, max)),
    decreases lines.len(),
{
    if lines.len() > 0 {
        lemma_step_preserves_wf(d, clip(lines[0], max), line_truncated(lines[0], max));
        lemma_fold_preserves_wf(
            spec_line_step(d, clip(lines[0], max), line_truncated(lines[0], max)).0,
            lines.skip(1),
            max,
        );
    }
}

/// Masking avoidance for the oversized-line error: the step that finds a
/// line too long records that error, and the final validation pass then
/// leaves it exactly as recorded — a missing session identifier never adds
/// a second, separate message on top of it.
pub proof fn lemma_oversize_error_never_masked(d: DrainModel, content: Seq<u8>)
    requires
        !d.parse_error_seen,
    ensures
        spec_line_step(d, content, true).0.result.error is Some,
        crate::codex::spec_enforce(
            spec_line_step(d, content, true).0.result,
            crate::codex::ValidationMode::Full,
        ).error == spec_line_step(d, content, true).0.result.error,
{
    crate::codex::lemma_error_not_masked(
        spec_line_step(d, content, true).0.result,
        crate::codex::ValidationMode::Full,
    );
}

/// The error text only ever grows: whatever was recorded stays as a
/// prefix of what is recorded later.
pub open spec fn error_grows(before: Option<Seq<u8>>, after: Option<Seq<u8>>) -> bool {
    match before {
        Some(e) => match after {
            Some(e2) => e.is_prefix_of(e2),
            None => false,
        },
        None => true,
    }
}

/// The result built by the event drain is monotonic, line by line: once
/// failed it never succeeds again; agent text and the event log only ever
/// grow; a recorded error is never overwritten, only extended; and both
/// truncation flags are sticky — once set, the capped field never changes
/// again.
pub proof fn lemma_step_monotonic(d: DrainModel, content: Seq<u8>, truncated: bool)
    ensures
        !d.result.success ==> !spec_line_step(d, content, truncated).0.result.success,
        d.result.agent.is_prefix_of(spec_line_step(d, content, truncated).0.result.agent),
        d.result.events.is_prefix_of(spec_line_step(d, content, truncated).0.result.events),
        error_grows(d.result.error, spec_line_step(d, content, truncated).0.result.error),
        d.result.agent_truncated ==> spec_line_step(d, content, truncated).0.result.agent_truncated
            && spec_line_step(d, content, truncated).0.result.agent == d.result.agent,
        d.result.events_truncated ==> spec_line_step(
            d,
            content,
            truncated,
        ).0.result.events_truncated && spec_line_step(d, content, truncated).0.result.events
            == d.result.events,
        d.parse_error_seen ==> spec_line_step(d, content, truncated).0.parse_error_seen,
{
    let s = spec_line_step(d, content, truncated).0;
    assert(d.result.agent.is_prefix_of(d.result.agent)) by {
        assert(d.result.agent.take(d.result.agent.len() as int) =~= d.result.agent);
    }
    assert(d.result.events.is_prefix_of(d.result.events)) by {
        assert(d.result.events.take(d.result.events.len() as int) =~= d.result.events);
    }
    lemma_prefix_facts_bytes(d.result.agent, s.result.agent);
    lemma_prefix_facts(d.result.events, s.result.events);
    match d.result.error {
        Some(e) => {
            match s.result.error {
                Some(e2) => {
                    lemma_prefix_facts_bytes(e, e2);
                },
                None => (),
            }
        },
        None => (),
    }
}

/// A sequence is a prefix of itself and of anything it was extended to.
proof fn lemma_prefix_facts(a: Seq<Seq<u8>>, b: Seq<Seq<u8>>)
    ensures
        a == b ==> a.is_prefix_of(b),
        (exists|t: Seq<Seq<u8>>| b == a + t) ==> a.is_prefix_of(b),
        (exists|o: Seq<u8>| b == a.push(o)) ==> a.is_prefix_of(b),
{
    if a == b {
        assert(a.take(a.len() as int) =~= a);
    }
    if exists|t: Seq<Seq<u8>>| b == a + t {
        let t = choose|t: Seq<Seq<u8>>| b == a + t;
        assert(b.take(a.len() as int) =~= a);
    }
    if exists|o: Seq<u8>| b == a.push(o) {
        let o = choose|o: Seq<u8>| b == a.push(o);
        assert(b.take(a.len() as int) =~= a);
    }
}

proof fn lemma_prefix_facts_bytes(a: Seq<u8>, b: Seq<u8>)
    ensures
        a == b ==> a.is_prefix_of(b),
        (exists|t: Seq<u8>| b == a + t) ==> a.is_prefix_of(b),
{
    if a == b {
        assert(a.take(a.len() as int) =~= a);
    }
    if exists|t: Seq<u8>| b == a + t {
        let t = choose|t: Seq<u8>| b == a + t;
        assert(b.take(a.len() as int) =~= a);
    }
}

/// The same, over a whole remaining stream: once failed, a run never
/// reports success again; the sticky truncation flags never clear and
/// their capped fields never change again; and once drain-only mode is
/// latched the rest of the stream — however long — is consumed without
/// changing the state at all.
pub proof fn lemma_fold_monotonic(d: DrainModel, lines: Seq<Seq<u8>>, max: int)
    ensures
        !d.result.success ==> !spec_fold_stdout(d, lines, max).result.success,
        d.result.agent_truncated ==> spec_fold_stdout(d, lines, max).result.agent_truncated
            && spec_fold_stdout(d, lines, max).result.agent == d.result.agent,
        d.result.events_truncated ==> spec_fold_stdout(d, lines, max).result.events_truncated
            && spec_fold_stdout(d, lines, max).result.events == d.result.events,
        d.parse_error_seen ==> spec_fold_stdout(d, lines, max) == d,
    decreases lines.len(),
{
    if lines.len() > 0 {
        let s = spec_line_step(d, clip(lines[0], max), line_truncated(lines[0], max)).0;
        lemma_step_monotonic(d, clip(lines[0], max), line_truncated(lines[0], max));
        if d.parse_error_seen {
            lemma_drain_only_mode(d, clip(lines[0], max), line_truncated(lines[0], max));
        }
        lemma_fold_monotonic(s, lines.skip(1), max);
    }
}

} // verus!
