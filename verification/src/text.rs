//! Small executable helpers over byte vectors, with exact contracts:
//! concatenation, substring search, trailing-carriage-return stripping,
//! and decimal rendering of integers.

use vstd::prelude::*;

verus! {

pub const NL: u8 = 10;
pub const CR: u8 = 13;

/// Appends `src` to `dst`.
pub fn append_bytes(dst: &mut Vec<u8>, src: &[u8])
    ensures
        final(dst)@ == old(dst)@ + src@,
{
    dst.extend_from_slice(src);
    proof {
        assert(dst@ =~= old(dst)@ + src@);
    }
}

/// `needle` occurs as a contiguous run somewhere in `hay`.
pub open spec fn contains_seq(hay: Seq<u8>, needle: Seq<u8>) -> bool {
    exists|i: int|
        0 <= i && i + needle.len() <= hay.len() && #[trigger] hay.subrange(i, i + needle.len())
            == needle
}

/// `suffix` is the tail of `s`.
pub open spec fn ends_with(s: Seq<u8>, suffix: Seq<u8>) -> bool {
    s.len() >= suffix.len() && s.subrange(s.len() - suffix.len(), s.len() as int) == suffix
}

/// Naive substring search.
pub fn contains_bytes(hay: &[u8], needle: &[u8]) -> (r: bool)
    ensures
        r == contains_seq(hay@, needle@),
{
    if needle.len() > hay.len() {
        return false;
    }
    if needle.len() == 0 {
        proof {
            assert(hay@.subrange(0, 0 + needle@.len() as int) =~= needle@);
        }
        return true;
    }
    let mut i: usize = 0;
    while i <= hay.len() - needle.len()
        invariant
            1 <= needle@.len() <= hay@.len(),
            i <= hay.len() - needle.len() + 1,
            forall|k: int|
                0 <= k < i ==> #[trigger] hay@.subrange(k, k + needle@.len()) != needle@,
        decreases hay.len() - needle.len() - i + 1,
    {
        let mut j: usize = 0;
        let mut hit = true;
        while j < needle.len()
            invariant
                hit ==> forall|m: int| 0 <= m < j ==> hay@[i + m] == needle@[m],
                !hit ==> hay@.subrange(i as int, i + needle@.len()) != needle@,
                i + needle.len() <= hay.len(),
                j <= needle.len(),
            decreases needle.len() - j,
        {
            if hay[i + j] != needle[j] {
                proof {
                    assert(hay@.subrange(i as int, i + needle@.len())[j as int] == hay@[i + j]);
                }
                hit = false;
            }
            j += 1;
        }
        if hit {
            proof {
                assert(hay@.subrange(i as int, i + needle@.len()) =~= needle@);
            }
            return true;
        }
        i += 1;
    }
    false
}

/// Byte-for-byte equality of two slices.
pub fn bytes_eq(a: &[u8], b: &[u8]) -> (r: bool)
    ensures
        r == (a@ == b@),
{
    if a.len() != b.len() {
        return false;
    }
    let mut i: usize = 0;
    while i < a.len()
        invariant
            a@.len() == b@.len(),
            i <= a@.len(),
            forall|k: int| 0 <= k < i ==> a@[k] == b@[k],
        decreases a@.len() - i,
    {
        if a[i] != b[i] {
            return false;
        }
        i += 1;
    }
    proof {
        assert(a@ =~= b@);
    }
    true
}

/// An ASCII whitespace byte.
pub open spec fn is_ws_byte(b: u8) -> bool {
    b == 32 || 9 <= b && b <= 13
}

/// `s` without its leading ASCII whitespace.
pub open spec fn trim_front(s: Seq<u8>) -> Seq<u8>
    decreases s.len(),
{
    if s.len() > 0 && is_ws_byte(s[0]) {
        trim_front(s.skip(1))
    } else {
        s
    }
}

/// `s` without its trailing ASCII whitespace.
pub open spec fn trim_back(s: Seq<u8>) -> Seq<u8>
    decreases s.len(),
{
    if s.len() > 0 && is_ws_byte(s.last()) {
        trim_back(s.drop_last())
    } else {
        s
    }
}

/// `s` without leading and trailing ASCII whitespace.
pub open spec fn trim_ascii(s: Seq<u8>) -> Seq<u8> {
    trim_back(trim_front(s))
}

/// Removes leading and trailing ASCII whitespace.
pub fn trim_ascii_ws(v: &Vec<u8>) -> (r: Vec<u8>)
    ensures
        r@ == trim_ascii(v@),
{
    let mut start: usize = 0;
    proof {
        assert(v@.skip(0) =~= v@);
    }
    while start < v.len() && (v[start] == 32 || (9 <= v[start] && v[start] <= 13))
        invariant
            start <= v@.len(),
            trim_front(v@.skip(start as int)) == trim_front(v@),
        decreases v@.len() - start,
    {
        proof {
            assert(v@.skip(start as int).skip(1) =~= v@.skip(start + 1 as int));
        }
        start += 1;
    }
    proof {
        assert(trim_front(v@) == v@.skip(start as int));
    }
    let ghost w = v@.skip(start as int);
    let mut end: usize = v.len();
    proof {
        assert(v@.subrange(start as int, end as int) =~= w);
    }
    while end > start && (v[end - 1] == 32 || (9 <= v[end - 1] && v[end - 1] <= 13))
        invariant
            start <= end <= v@.len(),
            trim_back(v@.subrange(start as int, end as int)) == trim_back(w),
        decreases end,
    {
        proof {
            let cur = v@.subrange(start as int, end as int);
            assert(cur.last() == v@[end - 1]);
            assert(cur.drop_last() =~= v@.subrange(start as int, end - 1 as int));
        }
        end -= 1;
    }
    proof {
        let cur = v@.subrange(start as int, end as int);
        assert(trim_back(cur) == cur);
    }
    let out = vstd::slice::slice_subrange(v.as_slice(), start, end);
    vstd::slice::slice_to_vec(out)
}

/// `s` with every trailing carriage return removed.
pub open spec fn strip_cr(s: Seq<u8>) -> Seq<u8>
    decreases s.len(),
{
    if s.len() > 0 && s.last() == CR {
        strip_cr(s.drop_last())
    } else {
        s
    }
}

/// Removes trailing carriage returns in place.
pub fn trim_trailing_cr(v: &mut Vec<u8>)
    ensures
        final(v)@ == strip_cr(old(v)@),
{
    loop
        invariant
            strip_cr(v@) == strip_cr(old(v)@),
        decreases v@.len(),
    {
        if v.len() > 0 && v[v.len() - 1] == CR {
            let ghost prev = v@;
            proof {
                assert(prev.last() == CR);
            }
            v.pop();
            proof {
                assert(v@ =~= prev.drop_last());
            }
        } else {
            return ;
        }
    }
}

/// Decimal digits of `n`, most significant first.
pub open spec fn spec_dec(n: nat) -> Seq<u8>
    decreases n,
{
    if n < 10 {
        seq![(48 + n) as u8]
    } else {
        spec_dec(n / 10).push((48 + n % 10) as u8)
    }
}

/// Decimal rendering of a possibly negative value: a sign, then digits.
pub open spec fn spec_i32_dec(v: int) -> Seq<u8> {
    if v < 0 {
        crate::msgs::minus_sign() + spec_dec((-v) as nat)
    } else {
        spec_dec(v as nat)
    }
}

/// Renders `c` in decimal, with a leading sign when negative.
pub fn i32_to_dec(c: i32) -> (r: Vec<u8>)
    ensures
        r@ == spec_i32_dec(c as int),
{
    if c >= 0 {
        u64_to_dec(c as u64)
    } else {
        let m: u64 = (-(c as i64)) as u64;
        let mut v: Vec<u8> = Vec::new();
        append_bytes(&mut v, "-".as_bytes());
        let digits = u64_to_dec(m);
        append_bytes(&mut v, digits.as_slice());
        proof {
            assert(v@ =~= spec_i32_dec(c as int));
        }
        v
    }
}

/// Renders `n` in decimal.
pub fn u64_to_dec(n: u64) -> (r: Vec<u8>)
    ensures
        r@ == spec_dec(n as nat),
    decreases n,
{
    if n < 10 {
        let mut v: Vec<u8> = Vec::new();
        v.push((48 + n) as u8);
        proof {
            assert(v@ =~= spec_dec(n as nat));
        }
        v
    } else {
        let mut v = u64_to_dec(n / 10);
        v.push((48 + n % 10) as u8);
        v
    }
}

} // verus!
