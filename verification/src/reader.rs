//! The bounded line reader: splits a byte stream into lines at newline
//! terminators while never keeping more than `max_len` content bytes,
//! reporting longer lines as truncated instead.  The stream position stays
//! exact: every byte up to and including each terminator is consumed.

use vstd::prelude::*;

verus! {

use crate::text::{append_bytes, NL};

/// Index of the first newline in `s`, or `s.len()` when there is none.
pub open spec fn find_nl(s: Seq<u8>) -> int
    decreases s.len(),
{
    if s.len() == 0 {
        0
    } else if s[0] == NL {
        0
    } else {
        1 + find_nl(s.skip(1))
    }
}

pub proof fn lemma_find_nl(s: Seq<u8>)
    ensures
        0 <= find_nl(s) <= s.len(),
        find_nl(s) < s.len() ==> s[find_nl(s)] == NL,
        forall|k: int| 0 <= k < find_nl(s) ==> s[k] != NL,
    decreases s.len(),
{
    if s.len() > 0 && s[0] != NL {
        lemma_find_nl(s.skip(1));
        assert forall|k: int| 0 <= k < find_nl(s) implies s[k] != NL by {
            if k > 0 {
                assert(s.skip(1)[k - 1] == s[k]);
            }
        }
        if find_nl(s) < s.len() {
            assert(s.skip(1)[find_nl(s) - 1] == s[find_nl(s)]);
        }
    }
}

/// `find_nl` is pinned down by its first-occurrence property.
pub proof fn lemma_find_nl_at(s: Seq<u8>, k: int)
    requires
        0 <= k <= s.len(),
        forall|j: int| 0 <= j < k ==> s[j] != NL,
        k < s.len() ==> s[k] == NL,
    ensures
        find_nl(s) == k,
{
    lemma_find_nl(s);
    if find_nl(s) < k {
        assert(s[find_nl(s)] == NL);
    }
    if find_nl(s) > k {
        assert(k < s.len());
    }
}

/// The stream, split at newline terminators; a trailing segment without a
/// terminator counts as a final line, and an empty trailing segment is no
/// line at all.
pub open spec fn split_lines(data: Seq<u8>) -> Seq<Seq<u8>>
    decreases data.len(),
    via split_lines_decreases
{
    if data.len() == 0 {
        Seq::empty()
    } else {
        let i = find_nl(data);
        if i < data.len() {
            seq![data.take(i)] + split_lines(data.skip(i + 1))
        } else {
            seq![data]
        }
    }
}

#[via_fn]
proof fn split_lines_decreases(data: Seq<u8>) {
    lemma_find_nl(data);
}

/// The first `max` bytes of `s`; all of `s` when it is short enough.
pub open spec fn clip(s: Seq<u8>, max: int) -> Seq<u8> {
    if s.len() <= max {
        s
    } else {
        s.take(max)
    }
}

/// Whether a line of these bytes overruns the content budget.
pub open spec fn line_truncated(line: Seq<u8>, max: int) -> bool {
    line.len() > max
}

/// A line of exactly `max_len` content bytes before its terminator is not
/// truncated, one of `max_len + 1` bytes is, and either way the bytes after
/// the terminator split into exactly the same subsequent lines: the stream
/// position stays intact.
pub proof fn lemma_line_length_boundary(first: Seq<u8>, rest: Seq<u8>, max_len: int)
    requires
        forall|j: int| 0 <= j < first.len() ==> first[j] != NL,
    ensures
        split_lines(first + seq![NL] + rest) == seq![first] + split_lines(rest),
        first.len() == max_len ==> !line_truncated(first, max_len) && clip(first, max_len) == first,
        first.len() == max_len + 1 ==> line_truncated(first, max_len),
{
    let whole = first + seq![NL] + rest;
    assert(whole[first.len() as int] == NL);
    assert forall|j: int| 0 <= j < first.len() implies whole[j] != NL by {}
    lemma_find_nl_at(whole, first.len() as int);
    assert(whole.take(first.len() as int) =~= first);
    assert(whole.skip(first.len() + 1 as int) =~= rest);
    assert(split_lines(whole) =~= seq![first] + split_lines(rest));
}

/// Incremental bounded line assembly over a stream of chunks.
pub struct LineAssembler {
    max_len: usize,
    buf: Vec<u8>,
    over: bool,
}

/// What feeding one chunk produced.
pub enum FeedOut {
    /// The chunk held no terminator; all of it was consumed.
    NeedMore,
    /// A terminator was found after `consumed` bytes of the chunk.
    Line { content: Vec<u8>, truncated: bool, consumed: usize },
}

impl LineAssembler {
    /// Content bytes gathered for the line in progress.
    pub closed spec fn pending(&self) -> Seq<u8> {
        self.buf@
    }

    /// Whether the line in progress already overran the budget.
    pub closed spec fn overflowed(&self) -> bool {
        self.over
    }

    /// The content budget per line.
    pub closed spec fn max(&self) -> int {
        self.max_len as int
    }

    pub closed spec fn wf(&self) -> bool {
        &&& self.max_len >= 1
        &&& self.buf@.len() <= self.max_len
        &&& (self.over ==> self.buf@.len() == self.max_len)
    }

    /// A fresh assembler at the start of a line.
    pub fn new(max_len: usize) -> (r: LineAssembler)
        requires
            max_len >= 1,
        ensures
            r.wf(),
            r.pending() == Seq::<u8>::empty(),
            !r.overflowed(),
            r.max() == max_len,
    {
        LineAssembler { max_len, buf: Vec::new(), over: false }
    }

    /// Consumes chunk bytes up to and including the first terminator, or
    /// all of them when there is none, keeping at most `max` content
    /// bytes.
    pub fn feed(&mut self, chunk: &[u8]) -> (r: FeedOut)
        requires
            old(self).wf(),
        ensures
            final(self).wf(),
            final(self).max() == old(self).max(),
            find_nl(chunk@) < chunk@.len() ==> (r matches FeedOut::Line { content, truncated, consumed }
                && consumed == find_nl(chunk@) + 1
                && content@ == clip(old(self).pending() + chunk@.take(find_nl(chunk@)), old(self).max())
                && truncated == (old(self).overflowed() || old(self).pending().len() + find_nl(chunk@) > old(self).max())
                && final(self).pending() == Seq::<u8>::empty()
                && !final(self).overflowed()),
            find_nl(chunk@) == chunk@.len() ==> (r is NeedMore
                && final(self).pending() == clip(old(self).pending() + chunk@, old(self).max())
                && final(self).overflowed() == (old(self).overflowed() || old(self).pending().len() + chunk@.len() > old(self).max())),
    {
        proof {
            lemma_find_nl(chunk@);
        }
        let ghost start = self.buf@;
        let ghost over0 = self.over;
        let mut k: usize = 0;
        while k < chunk.len()
            invariant
                self.wf(),
                self.max_len == old(self).max_len,
                k <= chunk@.len(),
                forall|j: int| 0 <= j < k ==> chunk@[j] != NL,
                self.buf@ == clip(start + chunk@.take(k as int), self.max_len as int),
                self.over == (over0 || start.len() + k > self.max_len),
                start == old(self).pending(),
                over0 == old(self).overflowed(),
            decreases chunk@.len() - k,
        {
            let b = chunk[k];
            if b == NL {
                proof {
                    lemma_find_nl_at(chunk@, k as int);
                }
                let mut content: Vec<u8> = Vec::new();
                append_bytes(&mut content, self.buf.as_slice());
                let truncated = self.over;
                self.buf.clear();
                self.over = false;
                proof {
                    assert(content@ =~= clip(start + chunk@.take(k as int), self.max_len as int));
                }
                return FeedOut::Line { content, truncated, consumed: k + 1 };
            }
            let ghost prev = self.buf@;
            if self.buf.len() < self.max_len {
                self.buf.push(b);
            } else {
                self.over = true;
            }
            proof {
                assert(chunk@.take(k + 1 as int) =~= chunk@.take(k as int).push(b));
                assert(self.buf@ =~= clip(start + chunk@.take(k + 1 as int), self.max_len as int));
            }
            k += 1;
        }
        proof {
            lemma_find_nl_at(chunk@, chunk@.len() as int);
            assert(chunk@.take(chunk@.len() as int) =~= chunk@);
        }
        FeedOut::NeedMore
    }

    /// End of stream: hands back the line in progress, or nothing when no
    /// bytes were pending.
    pub fn finish(&mut self) -> (r: Option<(Vec<u8>, bool)>)
        requires
            old(self).wf(),
        ensures
            final(self).wf(),
            final(self).max() == old(self).max(),
            old(self).pending().len() == 0 ==> r is None && final(self).pending()
                == old(self).pending() && final(self).overflowed() == old(self).overflowed(),
            old(self).pending().len() > 0 ==> (r matches Some((content, truncated))
                && content@ == old(self).pending()
                && truncated == old(self).overflowed()
                && final(self).pending() == Seq::<u8>::empty()
                && !final(self).overflowed()),
    {
        if self.buf.len() == 0 {
            proof {
                assert(!self.over);
            }
            return None;
        }
        let mut content: Vec<u8> = Vec::new();
        append_bytes(&mut content, self.buf.as_slice());
        let truncated = self.over;
        self.buf.clear();
        self.over = false;
        proof {
            assert(content@ =~= old(self).pending());
        }
        Some((content, truncated))
    }
}

} // verus!
