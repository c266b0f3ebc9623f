//! Keys of the persistent trace store's index partitions. Keys are
//! fixed-width big-endian bytes, so that their byte order is their order.
use vstd::prelude::*;
use crate::trace::{SpanId, TraceId};

verus! {

/// Big-endian bytes of `v`.
pub open spec fn be8(v: u64) -> Seq<u8> {
    seq![
        (v / 0x100000000000000) as u8,
        ((v / 0x1000000000000) % 256) as u8,
        ((v / 0x10000000000) % 256) as u8,
        ((v / 0x100000000) % 256) as u8,
        ((v / 0x1000000) % 256) as u8,
        ((v / 0x10000) % 256) as u8,
        ((v / 0x100) % 256) as u8,
        (v % 256) as u8,
    ]
}

/// The timestamp (milliseconds since the Unix epoch) as eight big-endian
/// bytes.
pub fn encode_timestamp(ts_ms: u64) -> (r: [u8; 8])
    ensures
        r@ == be8(ts_ms),
{
    let r = [
        (ts_ms / 0x100000000000000) as u8,
        ((ts_ms / 0x1000000000000) % 256) as u8,
        ((ts_ms / 0x10000000000) % 256) as u8,
        ((ts_ms / 0x100000000) % 256) as u8,
        ((ts_ms / 0x1000000) % 256) as u8,
        ((ts_ms / 0x10000) % 256) as u8,
        ((ts_ms / 0x100) % 256) as u8,
        (ts_ms % 256) as u8,
    ];
    proof {
        assert(r@ =~= be8(ts_ms));
    }
    r
}

/// Key of the time index: timestamp, then span id.
pub fn time_key(ts_ms: u64, span_id: &SpanId) -> (r: [u8; 16])
    ensures
        r@ == be8(ts_ms) + span_id.0@,
{
    let t = encode_timestamp(ts_ms);
    let s = span_id.as_bytes();
    let r = [
        t[0], t[1], t[2], t[3], t[4], t[5], t[6], t[7], s[0], s[1], s[2], s[3], s[4], s[5], s[6], s[7],
    ];
    proof {
        assert(r@ =~= be8(ts_ms) + span_id.0@);
    }
    r
}

/// Key of the trace-grouping index: trace id, then span id.
pub fn trace_id_key(trace_id: &TraceId, span_id: &SpanId) -> (r: [u8; 24])
    ensures
        r@ == trace_id.0@ + span_id.0@,
{
    let t = trace_id.as_bytes();
    let s = span_id.as_bytes();
    let r = [
        t[0], t[1], t[2], t[3], t[4], t[5], t[6], t[7], t[8], t[9], t[10], t[11], t[12], t[13],
        t[14], t[15], s[0], s[1], s[2], s[3], s[4], s[5], s[6], s[7],
    ];
    proof {
        assert(r@ =~= trace_id.0@ + span_id.0@);
    }
    r
}

} // verus!

verus! {

/// `a` sorts before `b` byte by byte.
pub open spec fn lex_less(a: Seq<u8>, b: Seq<u8>) -> bool
    decreases a.len(),
{
    if a.len() == 0 || b.len() == 0 {
        false
    } else if a[0] != b[0] {
        a[0] < b[0]
    } else {
        lex_less(a.drop_first(), b.drop_first())
    }
}

proof fn lemma_be8_digits_ordered(a: u64, b: u64)
    requires
        a < b,
    ensures
        (a / 0x100000000000000) < (b / 0x100000000000000) || ((a / 0x100000000000000) == (b / 0x100000000000000) && (((a / 0x1000000000000) % 256) < ((b / 0x1000000000000) % 256) || (((a / 0x1000000000000) % 256) == ((b / 0x1000000000000) % 256) && (((a / 0x10000000000) % 256) < ((b / 0x10000000000) % 256) || (((a / 0x10000000000) % 256) == ((b / 0x10000000000) % 256) && (((a / 0x100000000) % 256) < ((b / 0x100000000) % 256) || (((a / 0x100000000) % 256) == ((b / 0x100000000) % 256) && (((a / 0x1000000) % 256) < ((b / 0x1000000) % 256) || (((a / 0x1000000) % 256) == ((b / 0x1000000) % 256) && (((a / 0x10000) % 256) < ((b / 0x10000) % 256) || (((a / 0x10000) % 256) == ((b / 0x10000) % 256) && (((a / 0x100) % 256) < ((b / 0x100) % 256) || (((a / 0x100) % 256) == ((b / 0x100) % 256) && ((a % 256) < (b % 256))))))))))))))),
{
    assert((a / 0x100000000000000) < (b / 0x100000000000000) || ((a / 0x100000000000000) == (b / 0x100000000000000) && (((a / 0x1000000000000) % 256) < ((b / 0x1000000000000) % 256) || (((a / 0x1000000000000) % 256) == ((b / 0x1000000000000) % 256) && (((a / 0x10000000000) % 256) < ((b / 0x10000000000) % 256) || (((a / 0x10000000000) % 256) == ((b / 0x10000000000) % 256) && (((a / 0x100000000) % 256) < ((b / 0x100000000) % 256) || (((a / 0x100000000) % 256) == ((b / 0x100000000) % 256) && (((a / 0x1000000) % 256) < ((b / 0x1000000) % 256) || (((a / 0x1000000) % 256) == ((b / 0x1000000) % 256) && (((a / 0x10000) % 256) < ((b / 0x10000) % 256) || (((a / 0x10000) % 256) == ((b / 0x10000) % 256) && (((a / 0x100) % 256) < ((b / 0x100) % 256) || (((a / 0x100) % 256) == ((b / 0x100) % 256) && ((a % 256) < (b % 256)))))))))))))))) by (bit_vector)
        requires
            a < b,
    ;
}

proof fn lemma_lex_less_prefix(x: Seq<u8>, y: Seq<u8>, s: Seq<u8>, t: Seq<u8>)
    requires
        x.len() == y.len(),
        lex_less(x, y),
    ensures
        lex_less(x + s, y + t),
    decreases x.len(),
{
    if x[0] == y[0] {
        assert((x + s).drop_first() =~= x.drop_first() + s);
        assert((y + t).drop_first() =~= y.drop_first() + t);
        lemma_lex_less_prefix(x.drop_first(), y.drop_first(), s, t);
    }
}

proof fn lemma_be8_lex(a: u64, b: u64)
    requires
        a < b,
    ensures
        lex_less(be8(a), be8(b)),
{
    lemma_be8_digits_ordered(a, b);
    let x = be8(a);
    let y = be8(b);
    reveal_with_fuel(lex_less, 9);
    assert(x.drop_first() =~= x.subrange(1, 8));
    assert(y.drop_first() =~= y.subrange(1, 8));
    assert(x.subrange(1, 8).drop_first() =~= x.subrange(2, 8));
    assert(y.subrange(1, 8).drop_first() =~= y.subrange(2, 8));
    assert(x.subrange(2, 8).drop_first() =~= x.subrange(3, 8));
    assert(y.subrange(2, 8).drop_first() =~= y.subrange(3, 8));
    assert(x.subrange(3, 8).drop_first() =~= x.subrange(4, 8));
    assert(y.subrange(3, 8).drop_first() =~= y.subrange(4, 8));
    assert(x.subrange(4, 8).drop_first() =~= x.subrange(5, 8));
    assert(y.subrange(4, 8).drop_first() =~= y.subrange(5, 8));
    assert(x.subrange(5, 8).drop_first() =~= x.subrange(6, 8));
    assert(y.subrange(5, 8).drop_first() =~= y.subrange(6, 8));
    assert(x.subrange(6, 8).drop_first() =~= x.subrange(7, 8));
    assert(y.subrange(6, 8).drop_first() =~= y.subrange(7, 8));
}

/// Time-index keys sort as their timestamps do, whatever the span ids, so a
/// reverse walk of the index yields the newest traces first.
pub proof fn law_time_keys_ordered(a: u64, b: u64, span_a: Seq<u8>, span_b: Seq<u8>)
    requires
        a < b,
    ensures
        lex_less(be8(a) + span_a, be8(b) + span_b),
{
    lemma_be8_lex(a, b);
    lemma_lex_less_prefix(be8(a), be8(b), span_a, span_b);
}

} // verus!
