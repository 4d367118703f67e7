//! Trace-context header: `00-{trace_id:32 hex}-{span_id:16 hex}-{flags:2 hex}`.

use vstd::prelude::*;

verus! {

/// Identity of a span within a trace, as carried across services.
#[derive(Clone, Copy, Debug, PartialEq, Eq, Structural)]
pub struct TraceContext {
    pub trace_id: u128,
    pub span_id: u64,
    pub parent_span_id: Option<u64>,
    pub sampled: bool,
}

/// Why a header could not be decoded.
#[derive(Clone, Copy, Debug, PartialEq, Eq, Structural)]
pub enum ParseError {
    /// The header is not 55 bytes long.
    BadLength,
    /// The version field is not `00`.
    BadVersion,
    /// A field separator is not `-`.
    BadSeparator,
    /// An identifier holds a byte that is not a lowercase hex digit.
    BadId,
    /// The flags hold a bit other than the sampled bit, or are not hex.
    BadFlags,
}

/// Length of an encoded header.
pub const HEADER_LEN: usize = 55;

pub open spec fn pow16(n: nat) -> nat
    decreases n,
{
    if n == 0 {
        1
    } else {
        16 * pow16((n - 1) as nat)
    }
}

/// The lowercase hex digit for a value below 16.
pub open spec fn hex_digit(d: int) -> u8 {
    if d < 10 {
        (d + 48) as u8
    } else {
        (d + 87) as u8
    }
}

pub open spec fn is_hex(c: u8) -> bool {
    (48 <= c <= 57) || (97 <= c <= 102)
}

pub open spec fn hex_value(c: u8) -> int {
    if c <= 57 {
        c - 48
    } else {
        c - 87
    }
}

pub open spec fn all_hex(s: Seq<u8>) -> bool {
    forall|i: int| 0 <= i < s.len() ==> is_hex(#[trigger] s[i])
}

/// The `n` lowest hex digits of `v`, most significant first.
pub open spec fn hex_of(v: int, n: nat) -> Seq<u8>
    decreases n,
{
    if n == 0 {
        Seq::empty()
    } else {
        hex_of(v / 16, (n - 1) as nat).push(hex_digit(v % 16))
    }
}

/// The value of a string of hex digits, most significant first.
pub open spec fn parse_hex(s: Seq<u8>) -> int
    decreases s.len(),
{
    if s.len() == 0 {
        0
    } else {
        parse_hex(s.drop_last()) * 16 + hex_value(s.last())
    }
}

/// The header that carries `ctx` (its parent is not part of the wire form).
pub open spec fn header_of(ctx: TraceContext) -> Seq<u8> {
    seq![48u8, 48u8, 45u8] + hex_of(ctx.trace_id as int, 32) + seq![45u8] + hex_of(
        ctx.span_id as int,
        16,
    ) + seq![45u8, 48u8, if ctx.sampled {
        49u8
    } else {
        48u8
    }]
}

/// The bytes form a header of version `00` with only the sampled flag bit defined.
pub open spec fn header_ok(s: Seq<u8>) -> bool {
    &&& s.len() == 55
    &&& s[0] == 48u8 && s[1] == 48u8
    &&& s[2] == 45u8 && s[35] == 45u8 && s[52] == 45u8
    &&& all_hex(s.subrange(3, 35))
    &&& all_hex(s.subrange(36, 52))
    &&& s[53] == 48u8 && (s[54] == 48u8 || s[54] == 49u8)
}

/// The remote context a well-formed header names.
pub open spec fn context_of_header(s: Seq<u8>) -> TraceContext {
    TraceContext {
        trace_id: parse_hex(s.subrange(3, 35)) as u128,
        span_id: parse_hex(s.subrange(36, 52)) as u64,
        parent_span_id: None,
        sampled: s[54] == 49u8,
    }
}

/// What decoding `s` gives.
pub open spec fn decoded(s: Seq<u8>) -> Option<TraceContext> {
    if header_ok(s) {
        Some(context_of_header(s))
    } else {
        None
    }
}

pub proof fn lemma_pow16_step(n: nat)
    ensures
        pow16(n + 1) == 16 * pow16(n),
        pow16(n) >= 1,
    decreases n,
{
    reveal_with_fuel(pow16, 2);
    if n > 0 {
        lemma_pow16_step((n - 1) as nat);
    }
}

pub proof fn lemma_hex_of_len(v: int, n: nat)
    ensures
        hex_of(v, n).len() == n,
        all_hex(hex_of(v, n)),
    decreases n,
{
    if n > 0 {
        lemma_hex_of_len(v / 16, (n - 1) as nat);
        let d = v % 16;
        assert(0 <= d < 16);
        let s = hex_of(v, n);
        assert forall|i: int| 0 <= i < s.len() implies is_hex(#[trigger] s[i]) by {
            if i < n - 1 {
                assert(s[i] == hex_of(v / 16, (n - 1) as nat)[i]);
            }
        }
    }
}

pub proof fn lemma_parse_bound(s: Seq<u8>)
    requires
        all_hex(s),
    ensures
        0 <= parse_hex(s) < pow16(s.len()),
    decreases s.len(),
{
    if s.len() > 0 {
        let t = s.drop_last();
        assert forall|i: int| 0 <= i < t.len() implies is_hex(#[trigger] t[i]) by {
            assert(t[i] == s[i]);
        }
        lemma_parse_bound(t);
        assert(is_hex(s[s.len() - 1]));
        lemma_pow16_step(t.len());
    }
}

/// Reading back `n` digits of a value that fits in them gives the value.
pub proof fn lemma_parse_hex_of(v: int, n: nat)
    requires
        0 <= v < pow16(n),
    ensures
        parse_hex(hex_of(v, n)) == v,
    decreases n,
{
    if n > 0 {
        lemma_pow16_step((n - 1) as nat);
        assert(v / 16 < pow16((n - 1) as nat));
        lemma_parse_hex_of(v / 16, (n - 1) as nat);
        let s = hex_of(v, n);
        assert(s.drop_last() =~= hex_of(v / 16, (n - 1) as nat));
        assert(hex_value(hex_digit(v % 16)) == v % 16);
    }
}

proof fn lemma_pow16_32()
    ensures
        pow16(32) == 0x1_0000_0000_0000_0000_0000_0000_0000_0000,
        pow16(16) == 0x1_0000_0000_0000_0000,
{
    reveal_with_fuel(pow16, 33);
}

/// Decoding the encoding of a context gives back its wire identity: the
/// context itself, when it has no parent.
pub proof fn lemma_round_trip(ctx: TraceContext)
    ensures
        header_ok(header_of(ctx)),
        decoded(header_of(ctx)) == Some(
            TraceContext { parent_span_id: None, ..ctx },
        ),
        ctx.parent_span_id is None ==> decoded(header_of(ctx)) == Some(ctx),
{
    let s = header_of(ctx);
    let t = hex_of(ctx.trace_id as int, 32);
    let p = hex_of(ctx.span_id as int, 16);
    lemma_hex_of_len(ctx.trace_id as int, 32);
    lemma_hex_of_len(ctx.span_id as int, 16);
    lemma_pow16_32();
    lemma_parse_hex_of(ctx.trace_id as int, 32);
    lemma_parse_hex_of(ctx.span_id as int, 16);
    assert(s.subrange(3, 35) =~= t);
    assert(s.subrange(36, 52) =~= p);
    assert(s[2] == 45u8);
    assert(s[35] == 45u8);
    assert(s[52] == 45u8);
    assert(s[53] == 48u8);
}

fn digit_char(d: u8) -> (c: u8)
    requires
        d < 16,
    ensures
        c == hex_digit(d as int),
{
    if d < 10 {
        d + 48
    } else {
        d + 87
    }
}

fn push_hex(out: &mut Vec<u8>, v: u128, n: usize)
    requires
        n <= 32,
    ensures
        final(out)@ == old(out)@ + hex_of(v as int, n as nat),
    decreases n,
{
    if n > 0 {
        push_hex(out, v / 16, n - 1);
        out.push(digit_char((v % 16) as u8));
        assert(final(out)@ =~= old(out)@ + hex_of(v as int, n as nat));
    }
}

/// Encodes `ctx` as a header value.
pub fn encode(ctx: &TraceContext) -> (r: Vec<u8>)
    ensures
        r@ == header_of(*ctx),
        r@.len() == HEADER_LEN,
{
    let mut out: Vec<u8> = Vec::new();
    out.push(48u8);
    out.push(48u8);
    out.push(45u8);
    push_hex(&mut out, ctx.trace_id, 32);
    out.push(45u8);
    push_hex(&mut out, ctx.span_id as u128, 16);
    out.push(45u8);
    out.push(48u8);
    out.push(if ctx.sampled { 49u8 } else { 48u8 });
    proof {
        lemma_hex_of_len(ctx.trace_id as int, 32);
        lemma_hex_of_len(ctx.span_id as int, 16);
    }
    assert(out@ =~= header_of(*ctx));
    out
}

/// The value of the hex digits `s[lo..hi]`, or `None` when one is not a
/// lowercase hex digit.
fn parse_hex_field(s: &[u8], lo: usize, hi: usize) -> (r: Option<u128>)
    requires
        lo <= hi <= s@.len(),
        hi - lo <= 32,
    ensures
        match r {
            Some(v) => all_hex(s@.subrange(lo as int, hi as int)) && v as int == parse_hex(
                s@.subrange(lo as int, hi as int),
            ),
            None => !all_hex(s@.subrange(lo as int, hi as int)),
        },
{
    let mut acc: u128 = 0;
    let mut i: usize = lo;
    proof {
        lemma_pow16_32();
    }
    while i < hi
        invariant
            lo <= i <= hi <= s@.len(),
            hi - lo <= 32,
            pow16(32) == 0x1_0000_0000_0000_0000_0000_0000_0000_0000,
            all_hex(s@.subrange(lo as int, i as int)),
            acc as int == parse_hex(s@.subrange(lo as int, i as int)),
            acc < pow16((i - lo) as nat),
        decreases hi - i,
    {
        let c = s[i];
        if !((48 <= c && c <= 57) || (97 <= c && c <= 102)) {
            assert(s@.subrange(lo as int, hi as int)[i - lo] == c);
            return None;
        }
        let d: u128 = if c <= 57 {
            (c - 48) as u128
        } else {
            (c - 87) as u128
        };
        proof {
            lemma_pow16_step((i - lo) as nat);
            lemma_pow16_mono((i - lo + 1) as nat, 32);
        }
        acc = acc * 16 + d;
        let ghost prev = s@.subrange(lo as int, i as int);
        i = i + 1;
        let ghost cur = s@.subrange(lo as int, i as int);
        assert(cur.drop_last() =~= prev);
        assert(cur.last() == c);
        assert forall|j: int| 0 <= j < cur.len() implies is_hex(#[trigger] cur[j]) by {
            if j < prev.len() {
                assert(cur[j] == prev[j]);
            }
        }
    }
    Some(acc)
}

proof fn lemma_pow16_mono(a: nat, b: nat)
    requires
        a <= b,
    ensures
        pow16(a) <= pow16(b),
    decreases b - a,
{
    if a < b {
        lemma_pow16_step(a);
        lemma_pow16_mono(a + 1, b);
    }
}

/// Decodes a header value; fails exactly on bytes that are not a well-formed
/// header.
pub fn decode(h: &[u8]) -> (r: Result<TraceContext, ParseError>)
    ensures
        match r {
            Ok(c) => decoded(h@) == Some(c),
            Err(_) => decoded(h@) is None,
        },
{
    if h.len() != HEADER_LEN {
        return Err(ParseError::BadLength);
    }
    if h[0] != 48u8 || h[1] != 48u8 {
        return Err(ParseError::BadVersion);
    }
    if h[2] != 45u8 || h[35] != 45u8 || h[52] != 45u8 {
        return Err(ParseError::BadSeparator);
    }
    let trace_id = match parse_hex_field(h, 3, 35) {
        Some(v) => v,
        None => return Err(ParseError::BadId),
    };
    let span_id = match parse_hex_field(h, 36, 52) {
        Some(v) => v,
        None => return Err(ParseError::BadId),
    };
    if h[53] != 48u8 || (h[54] != 48u8 && h[54] != 49u8) {
        return Err(ParseError::BadFlags);
    }
    proof {
        lemma_parse_bound(h@.subrange(36, 52));
        lemma_pow16_32();
    }
    Ok(TraceContext { trace_id, span_id: span_id as u64, parent_span_id: None, sampled: h[54] == 49u8 })
}

} // verus!
