//! Properties that hold across the library's functions, stated over the
//! spec functions their contracts use.
use vstd::prelude::*;
use crate::dispatch::{http1_incoming, teardown_out, EmittedView, FdState};
use crate::guard::admits;
use crate::h2::{
    add_data, block_decoded, done_by, frame_step, has_flag, header_block_spec, select, upsert_headers,
    HalfView, H2Stream, StreamView, H2_FLAG_END_HEADERS, H2_FLAG_END_STREAM, H2_FLAG_PADDED,
    H2_FLAG_PRIORITY, H2_TYPE_CONTINUATION, H2_TYPE_HEADERS,
};
use crate::bytes::{capped_append, MAX_BUF};
use crate::wire::{body_spec, b64_spec, MAX_BODY};

verus! {

/// Bytes that arrive in two pieces are buffered exactly as if they had
/// arrived at once, so chunk boundaries never change what a buffer holds.
pub proof fn law_buffering_ignores_chunk_boundaries(b: Seq<u8>, x: Seq<u8>, y: Seq<u8>, cap: nat)
    ensures
        capped_append(capped_append(b, x, cap), y, cap) == capped_append(b, x + y, cap),
{
    let bx = capped_append(b, x, cap);
    if b.len() >= cap {
    } else if b.len() + x.len() <= cap {
        assert(bx == b + x);
        if b.len() + x.len() + y.len() <= cap {
            assert(b + x + y =~= b + (x + y));
        } else {
            assert(bx + y.take(cap - bx.len()) =~= b + (x + y).take(cap - b.len()));
        }
    } else {
        assert(bx.len() == cap);
    }
}

/// A buffer at or under its cap stays at or under it, and keeps every byte
/// it already held.
pub proof fn law_buffer_cap(b: Seq<u8>, data: Seq<u8>, cap: nat)
    requires
        b.len() <= cap,
    ensures
        capped_append(b, data, cap).len() <= cap,
        capped_append(b, data, cap).take(b.len() as int) == b,
{
    let r = capped_append(b, data, cap);
    assert(r.take(b.len() as int) =~= b);
}

/// A record carries at most `MAX_BODY` body bytes: a larger body is cut to
/// its first `MAX_BODY` bytes, a smaller one carried whole.
pub proof fn law_body_cap(raw: Seq<u8>)
    requires
        raw.len() > 0,
    ensures
        raw.len() > MAX_BODY ==> body_spec(raw) == Some(b64_spec(raw.take(MAX_BODY as int))),
        raw.len() <= MAX_BODY ==> body_spec(raw) == Some(b64_spec(raw)),
{
}

/// A HEADERS payload `[pad length][5 priority bytes][block][padding]` with
/// PADDED and PRIORITY set yields exactly the block, as the same block sent
/// bare with neither flag does.
pub proof fn law_padding_and_priority_stripped(
    block: Seq<u8>,
    prio: Seq<u8>,
    pad: Seq<u8>,
    flags: u8,
)
    requires
        prio.len() == 5,
        pad.len() <= 255,
        6 + block.len() + pad.len() <= usize::MAX,
        flags & H2_FLAG_PADDED != 0,
        flags & H2_FLAG_PRIORITY != 0,
    ensures
        ({
            let p = seq![pad.len() as u8] + prio + block + pad;
            let r = header_block_spec(p, flags);
            p.subrange(r.0 as int, r.1 as int) == block
        }),
        ({
            let r = header_block_spec(block, 0);
            block.subrange(r.0 as int, r.1 as int) == block
        }),
{
    let p = seq![pad.len() as u8] + prio + block + pad;
    assert(p[0] == pad.len() as u8);
    assert(0u8 & H2_FLAG_PADDED == 0) by (bit_vector);
    assert(0u8 & H2_FLAG_PRIORITY == 0) by (bit_vector);
    let r = header_block_spec(p, flags);
    assert(r == (6usize, (6 + block.len()) as usize));
    assert(p.subrange(6, 6 + block.len() as int) =~= block);
    assert(block.subrange(0, block.len() as int) =~= block);
}

/// While an interception is being processed, a nested one (a TLS write that
/// calls the plain send underneath) is not admitted, so a single write is
/// observed once.
pub proof fn law_nested_interception_passes_through(active: bool)
    requires
        !active,
    ensures
        admits(active),
        !admits(true),
{
}

/// A chunked HTTP/1 response, whose head has parsed with no known length,
/// completes on no incoming bytes: the connection keeps collecting and
/// nothing is emitted until teardown.
pub proof fn law_chunked_waits_for_teardown(
    s: FdState,
    data: Seq<u8>,
    now_ms: u64,
    after: Option<FdState>,
    out: Seq<EmittedView>,
)
    requires
        s matches FdState::CollectingResponse { headers_end, content_length, .. } && headers_end is Some
            && content_length is None,
        http1_incoming(s, data, now_ms, after, out),
    ensures
        out.len() == 0,
        after is Some,
{
}

/// At teardown a chunked HTTP/1 response whose head parsed is emitted with
/// every byte buffered past its head.
pub proof fn law_chunked_flushed_at_teardown(s: FdState, now_ms: u64)
    requires
        s.wf(),
        s matches FdState::CollectingResponse { status_code, resp_headers, headers_end, content_length, .. }
            && status_code is Some && resp_headers is Some && headers_end is Some && content_length is None,
    ensures
        teardown_out(Some(s), now_ms).len() == 1,
        match s {
            FdState::CollectingResponse { req, buf, tls, status_code, resp_headers, headers_end, .. } => teardown_out(
                Some(s),
                now_ms,
            )[0] == EmittedView::Http(
                crate::http1::http1_record(
                    req@,
                    status_code->0,
                    crate::wire::pairs_view(resp_headers->0@),
                    buf@.subrange(headers_end->0 as int, buf@.len() as int),
                    now_ms,
                    tls,
                ),
            ),
            _ => false,
        },
{
}

proof fn lemma_select_partition(s: Seq<(u32, H2Stream)>, by_end: bool)
    ensures
        select(s, by_end, true).len() + select(s, by_end, false).len() == s.len(),
        forall|i: int| 0 <= i < select(s, by_end, true).len() ==> done_by(#[trigger] select(s, by_end, true)[i].1, by_end),
        forall|i: int| 0 <= i < select(s, by_end, false).len() ==> !done_by(#[trigger] select(s, by_end, false)[i].1, by_end),
    decreases s.len(),
{
    if s.len() > 0 {
        lemma_select_partition(s.drop_last(), by_end);
        let t = select(s.drop_last(), by_end, true);
        let f = select(s.drop_last(), by_end, false);
        assert forall|i: int| 0 <= i < select(s, by_end, true).len() implies done_by(#[trigger] select(s, by_end, true)[i].1, by_end) by {
            if i < t.len() {
                assert(select(s, by_end, true)[i] == t[i]);
            }
        }
        assert forall|i: int| 0 <= i < select(s, by_end, false).len() implies !done_by(#[trigger] select(s, by_end, false)[i].1, by_end) by {
            if i < f.len() {
                assert(select(s, by_end, false)[i] == f[i]);
            }
        }
    }
}

/// Closing an HTTP/2 connection reports each stream that has a response
/// status and drops each stream that has none: every stream falls on
/// exactly one side.
pub proof fn law_teardown_reports_streams_with_status(s: Seq<(u32, H2Stream)>)
    ensures
        select(s, false, true).len() + select(s, false, false).len() == s.len(),
        forall|i: int| 0 <= i < select(s, false, true).len() ==> (#[trigger] select(s, false, true)[i]).1.resp_status is Some,
        forall|i: int| 0 <= i < select(s, false, false).len() ==> (#[trigger] select(s, false, false)[i]).1.resp_status is None,
{
    lemma_select_partition(s, false);
    assert forall|i: int| 0 <= i < select(s, false, true).len() implies (#[trigger] select(s, false, true)[i]).1.resp_status is Some by {
        assert(done_by(select(s, false, true)[i].1, false));
    }
    assert forall|i: int| 0 <= i < select(s, false, false).len() implies (#[trigger] select(s, false, false)[i]).1.resp_status is None by {
        assert(!done_by(select(s, false, false)[i].1, false));
    }
}

/// A header block split over HEADERS without END_HEADERS, a CONTINUATION,
/// and a final CONTINUATION with END_HEADERS: the first two frames leave the
/// streams and the decoder untouched and only gather the fragments in order;
/// the last one hands the whole gathered block to the decoder once and
/// applies the result with the END_STREAM of the HEADERS frame.
pub proof fn law_continuation_applies_block_once(
    c: HalfView,
    s: Seq<(u32, StreamView)>,
    sid: u32,
    head_flags: u8,
    head_payload: Seq<u8>,
    mid_flags: u8,
    mid_payload: Seq<u8>,
    end_flags: u8,
    end_payload: Seq<u8>,
    is_request: bool,
    tls: bool,
    now_ms: u64,
    wall_ms: u64,
)
    requires
        sid > 0,
        !has_flag(head_flags, H2_FLAG_END_HEADERS),
        !has_flag(mid_flags, H2_FLAG_END_HEADERS),
        has_flag(end_flags, H2_FLAG_END_HEADERS),
    ensures
        ({
            let r = header_block_spec(head_payload, head_flags);
            let hb = head_payload.subrange(r.0 as int, r.1 as int);
            let block = capped_append(capped_append(hb, mid_payload, MAX_BUF as nat), end_payload, MAX_BUF as nat);
            let d = block_decoded(c.dec, block);
            let (c1, s1) = frame_step(c, s, H2_TYPE_HEADERS, head_flags, sid, head_payload, is_request, tls, now_ms, wall_ms);
            let (c2, s2) = frame_step(c1, s1, H2_TYPE_CONTINUATION, mid_flags, sid, mid_payload, is_request, tls, now_ms, wall_ms);
            let (c3, s3) = frame_step(c2, s2, H2_TYPE_CONTINUATION, end_flags, sid, end_payload, is_request, tls, now_ms, wall_ms);
            &&& s1 == s && s2 == s
            &&& c1.dec == c.dec && c2.dec == c.dec
            &&& c1.block == hb
            &&& c2.block == capped_append(hb, mid_payload, MAX_BUF as nat)
            &&& s3 == upsert_headers(s, sid, d.0, is_request, has_flag(head_flags, H2_FLAG_END_STREAM), tls, now_ms, wall_ms)
            &&& c3.dec == d.1
            &&& c3.sid is None
        }),
{
}

/// A HEADERS frame with END_HEADERS, padded and with a priority block,
/// decodes exactly as the bare fragment would.
pub proof fn law_padded_headers_decode_as_bare(
    c: HalfView,
    s: Seq<(u32, StreamView)>,
    sid: u32,
    block: Seq<u8>,
    prio: Seq<u8>,
    pad: Seq<u8>,
    flags: u8,
    is_request: bool,
    tls: bool,
    now_ms: u64,
    wall_ms: u64,
)
    requires
        sid > 0,
        prio.len() == 5,
        pad.len() <= 255,
        6 + block.len() + pad.len() <= usize::MAX,
        flags & H2_FLAG_PADDED != 0,
        flags & H2_FLAG_PRIORITY != 0,
        has_flag(flags, H2_FLAG_END_HEADERS),
    ensures
        frame_step(c, s, H2_TYPE_HEADERS, flags, sid, seq![pad.len() as u8] + prio + block + pad, is_request, tls, now_ms, wall_ms)
            == frame_step(c, s, H2_TYPE_HEADERS, flags & !(H2_FLAG_PADDED | H2_FLAG_PRIORITY), sid, block, is_request, tls, now_ms, wall_ms),
{
    let f2 = flags & !(H2_FLAG_PADDED | H2_FLAG_PRIORITY);
    assert(f2 & H2_FLAG_PADDED == 0 && f2 & H2_FLAG_PRIORITY == 0 && (f2 & H2_FLAG_END_HEADERS == flags & H2_FLAG_END_HEADERS)
        && (f2 & H2_FLAG_END_STREAM == flags & H2_FLAG_END_STREAM)) by (bit_vector)
        requires
            f2 == flags & !(0x8u8 | 0x20u8),
    ;
    law_padding_and_priority_stripped(block, prio, pad, flags);
    let r = header_block_spec(block, f2);
    assert(r == (0usize, block.len() as usize));
    assert(block.subrange(0, block.len() as int) =~= block);
}

/// Frames of one stream never touch another: after DATA or a header block
/// for `sid`, every stream with another id is as it was, so interleaved
/// streams keep independent heads and bodies.
pub proof fn law_streams_independent(
    s: Seq<(u32, StreamView)>,
    sid: u32,
    data: Seq<u8>,
    d: Seq<(Seq<u8>, Seq<u8>)>,
    is_request: bool,
    end_stream: bool,
    tls: bool,
    now_ms: u64,
    wall_ms: u64,
)
    ensures
        forall|j: int| 0 <= j < s.len() && s[j].0 != sid ==> #[trigger] add_data(s, sid, data, is_request, end_stream)[j] == s[j],
        forall|j: int| 0 <= j < s.len() && s[j].0 != sid ==> #[trigger] upsert_headers(s, sid, d, is_request, end_stream, tls, now_ms, wall_ms)[j] == s[j],
{
}

} // verus!
