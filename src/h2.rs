//! HTTP/2 reassembly: frame headers, header blocks split over CONTINUATION
//! frames, per-stream request and response state, and stream completion.
use vstd::prelude::*;
use crate::bytes::{append_capped, bytes_eq, capped_append, copy_range, drop_front, starts_with, MAX_BUF};
use crate::text::{lossy_of, parse_u16, push_str, u16_parse_of, utf8_lossy};
use crate::wire::{body_b64, body_spec, elapsed, elapsed_ms, msgs_view, opt_str, pairs_view, HttpMsgView, HttpTraceMsg};

verus! {

/// The hpack crate's decoder, carried opaquely: its dynamic table is its own.
#[verifier::external_type_specification]
#[verifier::external_body]
pub struct ExHpackDecoder<'a>(hpack::Decoder<'a>);

/// The entries of a decoder's dynamic table, newest first.
pub uninterp spec fn hpack_table(d: hpack::Decoder<'static>) -> Seq<(Seq<u8>, Seq<u8>)>;

/// The maximum size, in octets, of a decoder's dynamic table.
pub uninterp spec fn hpack_max_size(d: hpack::Decoder<'static>) -> nat;

/// What decoding `block` does with a decoder whose dynamic table has maximum
/// size `max_size` and entries `table`: the header list (none when the block
/// is malformed), then the table's new maximum size and entries.
pub uninterp spec fn hpack_decode_of(
    max_size: nat,
    table: Seq<(Seq<u8>, Seq<u8>)>,
    block: Seq<u8>,
) -> (Option<Seq<(Seq<u8>, Seq<u8>)>>, nat, Seq<(Seq<u8>, Seq<u8>)>);

/// Relies on `hpack::Decoder::new`: the standard static table and an empty
/// dynamic table of 4096 octets.
#[verifier::external_body]
fn new_hpack_decoder() -> (r: hpack::Decoder<'static>)
    ensures
        hpack_table(r) == Seq::<(Seq<u8>, Seq<u8>)>::empty(),
        hpack_max_size(r) == 4096,
{
    hpack::Decoder::new()
}

/// A block on which `hpack::Decoder::decode` cannot panic. Its one panic is
/// the `unwrap` on a dynamic-table size update whose integer fills its
/// five-bit prefix (the byte `0x3f`) and does not end within the four bytes
/// after it. Any such byte, wherever it stands, rules the block out.
pub open spec fn hpack_safe(b: Seq<u8>) -> bool {
    forall|i: int|
        0 <= i < b.len() && #[trigger] b[i] == 0x3f ==> exists|j: int| i < j <= i + 4 && j < b.len() && b[j] < 128
}

/// Relies on `hpack::Decoder::decode`: the result depends on the dynamic
/// table and the block alone, and so does the table afterwards; a block that
/// fails to decode gives no headers.
#[verifier::external_body]
fn hpack_decode(d: &mut hpack::Decoder<'static>, block: &[u8]) -> (r: Vec<(Vec<u8>, Vec<u8>)>)
    requires
        hpack_safe(block@),
    ensures
        hs_view(r@) == match hpack_decode_of(hpack_max_size(*old(d)), hpack_table(*old(d)), block@).0 {
            Some(l) => l,
            None => Seq::empty(),
        },
        hpack_max_size(*final(d)) == hpack_decode_of(hpack_max_size(*old(d)), hpack_table(*old(d)), block@).1,
        hpack_table(*final(d)) == hpack_decode_of(hpack_max_size(*old(d)), hpack_table(*old(d)), block@).2,
{
    d.decode(block).unwrap_or_default()
}

/// Whether `hpack_safe` holds of `b`.
fn hpack_block_safe(b: &[u8]) -> (r: bool)
    ensures
        r == hpack_safe(b@),
{
    let n = b.len();
    let mut i: usize = 0;
    while i < n
        invariant
            n == b@.len(),
            i <= n,
            forall|k: int|
                0 <= k < i && #[trigger] b@[k] == 0x3f ==> exists|j: int| k < j <= k + 4 && j < b@.len() && b@[j] < 128,
        decreases n - i,
    {
        if b[i] == 0x3f {
            let mut j: usize = i + 1;
            let mut found = false;
            while !found && j - i <= 4 && j < n
                invariant
                    n == b@.len(),
                    i < n,
                    i + 1 <= j <= i + 5,
                    found ==> exists|m: int| i < m <= i + 4 && m < b@.len() && b@[m] < 128,
                    !found ==> forall|m: int| i < m < j ==> b@[m] >= 128,
                decreases (if found { 0int } else { 1int }) + i + 5 - j,
            {
                if b[j] < 128 {
                    found = true;
                } else {
                    j = j + 1;
                }
            }
            if !found {
                proof {
                    assert forall|m: int| i < m <= i + 4 && m < b@.len() implies !(b@[m] < 128) by {
                        assert(m < j);
                    }
                    assert(b@[i as int] == 0x3f);
                }
                return false;
            }
        }
        i = i + 1;
    }
    true
}

/// A decoder as the contracts see it.
pub struct DecView {
    pub max_size: nat,
    pub table: Seq<(Seq<u8>, Seq<u8>)>,
}

pub open spec fn dec_view(d: hpack::Decoder<'static>) -> DecView {
    DecView { max_size: hpack_max_size(d), table: hpack_table(d) }
}

/// Decoding `block`: the header list and the decoder after. A block the
/// decoder could panic on is not handed to it and counts as a failed
/// decode: no headers, decoder unchanged.
pub open spec fn block_decoded(v: DecView, block: Seq<u8>) -> (Seq<(Seq<u8>, Seq<u8>)>, DecView) {
    if hpack_safe(block) {
        let o = hpack_decode_of(v.max_size, v.table, block);
        (
            match o.0 {
                Some(l) => l,
                None => Seq::empty(),
            },
            DecView { max_size: o.1, table: o.2 },
        )
    } else {
        (Seq::empty(), v)
    }
}

/// Decodes one complete header block.
fn decode_block(d: &mut hpack::Decoder<'static>, block: &[u8]) -> (r: Vec<(Vec<u8>, Vec<u8>)>)
    ensures
        (hs_view(r@), dec_view(*final(d))) == block_decoded(dec_view(*old(d)), block@),
{
    if hpack_block_safe(block) {
        hpack_decode(d, block)
    } else {
        let r: Vec<(Vec<u8>, Vec<u8>)> = Vec::new();
        proof {
            assert(hs_view(r@) =~= Seq::empty());
        }
        r
    }
}

pub const H2_FRAME_HDR_LEN: usize = 9;
pub const H2_TYPE_DATA: u8 = 0x0;
pub const H2_TYPE_HEADERS: u8 = 0x1;
pub const H2_TYPE_CONTINUATION: u8 = 0x9;
pub const H2_FLAG_END_STREAM: u8 = 0x1;
pub const H2_FLAG_END_HEADERS: u8 = 0x4;
pub const H2_FLAG_PADDED: u8 = 0x8;
pub const H2_FLAG_PRIORITY: u8 = 0x20;

/// The 24-byte client connection preface.
pub open spec fn preface_spec() -> Seq<u8> {
    seq![
        80u8, 82, 73, 32, 42, 32, 72, 84, 84, 80, 47, 50, 46, 48, 13, 10, 13, 10, 83, 77, 13, 10,
        13, 10,
    ]
}

pub fn h2_preface() -> (r: Vec<u8>)
    ensures
        r@ == preface_spec(),
{
    let r: Vec<u8> = vec![
        80u8, 82, 73, 32, 42, 32, 72, 84, 84, 80, 47, 50, 46, 48, 13, 10, 13, 10, 83, 77, 13, 10,
        13, 10,
    ];
    proof {
        assert(r@ =~= preface_spec());
    }
    r
}

/// Whether `data` opens with the client connection preface.
pub fn starts_with_preface(data: &[u8]) -> (r: bool)
    ensures
        r == (data@.len() >= 24 && data@.take(24) == preface_spec()),
{
    let p = h2_preface();
    starts_with(data, p.as_slice())
}

/// Payload length, type, flags and stream id of the frame header at the head
/// of `b`; the reserved bit of the stream id is masked off.
pub open spec fn frame_header_spec(b: Seq<u8>) -> Option<(usize, u8, u8, u32)> {
    if b.len() < 9 {
        None
    } else {
        Some(
            (
                (b[0] as nat * 65536 + b[1] as nat * 256 + b[2] as nat) as usize,
                b[3],
                b[4],
                ((b[5] & 0x7f) as nat * 16777216 + b[6] as nat * 65536 + b[7] as nat * 256
                    + b[8] as nat) as u32,
            ),
        )
    }
}

pub fn parse_h2_frame_header(buf: &[u8]) -> (r: Option<(usize, u8, u8, u32)>)
    ensures
        r == frame_header_spec(buf@),
        r matches Some((n, _, _, _)) ==> n < 16777216,
{
    if buf.len() < H2_FRAME_HDR_LEN {
        return None;
    }
    let payload_len = (buf[0] as usize) * 65536 + (buf[1] as usize) * 256 + buf[2] as usize;
    let b5 = buf[5];
    let high = b5 & 0x7f;
    assert(high <= 0x7f) by (bit_vector)
        requires
            high == b5 & 0x7f,
    ;
    let stream_id = (high as u32) * 16777216 + (buf[6] as u32) * 65536 + (buf[7] as u32) * 256
        + buf[8] as u32;
    Some((payload_len, buf[3], buf[4], stream_id))
}

pub open spec fn has_flag(flags: u8, f: u8) -> bool {
    flags & f != 0
}

/// Where the header-block fragment lies in a HEADERS payload: past the
/// pad-length byte and the priority block, short of the padding.
pub open spec fn header_block_spec(p: Seq<u8>, flags: u8) -> (usize, usize) {
    let padded = has_flag(flags, H2_FLAG_PADDED);
    let prio = has_flag(flags, H2_FLAG_PRIORITY);
    if padded && p.len() == 0 {
        (0, 0)
    } else {
        let start: int = (if padded { 1int } else { 0int }) + (if prio { 5int } else { 0int });
        let end: int = if padded {
            if p.len() >= p[0] {
                p.len() - p[0]
            } else {
                0
            }
        } else {
            p.len() as int
        };
        if start > end {
            (0, 0)
        } else {
            (start as usize, end as usize)
        }
    }
}

pub fn h2_header_block_range(payload: &[u8], flags: u8) -> (r: (usize, usize))
    ensures
        r == header_block_spec(payload@, flags),
        r.0 <= r.1 <= payload@.len(),
{
    let padded = flags & H2_FLAG_PADDED != 0;
    let prio = flags & H2_FLAG_PRIORITY != 0;
    if padded && payload.len() == 0 {
        return (0, 0);
    }
    let mut start: usize = 0;
    let mut end: usize = payload.len();
    if padded {
        let pad = payload[0] as usize;
        start = 1;
        end = if end >= pad {
            end - pad
        } else {
            0
        };
    }
    if prio {
        start = start + 5;
    }
    if start > end {
        (0, 0)
    } else {
        (start, end)
    }
}

/// Where the data lies in a DATA payload. A padded frame with no payload has
/// no data; padding longer than the payload leaves none either.
pub open spec fn data_range_spec(p: Seq<u8>, flags: u8) -> (usize, usize) {
    if has_flag(flags, H2_FLAG_PADDED) && p.len() > 0 {
        let end: int = if p.len() >= p[0] {
            p.len() - p[0]
        } else {
            0
        };
        if end < 1 {
            (1, 1)
        } else {
            (1, end as usize)
        }
    } else {
        (0, p.len() as usize)
    }
}

pub fn h2_data_range(payload: &[u8], flags: u8) -> (r: (usize, usize))
    ensures
        r == data_range_spec(payload@, flags),
        r.0 <= r.1 <= payload@.len(),
{
    if flags & H2_FLAG_PADDED != 0 && payload.len() > 0 {
        let pad = payload[0] as usize;
        let end = if payload.len() >= pad {
            payload.len() - pad
        } else {
            0
        };
        if end < 1 {
            (1, 1)
        } else {
            (1, end)
        }
    } else {
        (0, payload.len())
    }
}

} // verus!

verus! {

/// One request-response exchange on an HTTP/2 connection. Times are
/// milliseconds: `started_ms` monotonic, `timestamp_ms` wall clock.
pub struct H2Stream {
    pub req_method: Option<String>,
    pub req_path: Option<String>,
    pub req_authority: Option<String>,
    pub req_scheme: Option<String>,
    pub req_headers: Vec<(String, String)>,
    pub req_body: Vec<u8>,
    /// END_STREAM seen on the request side.
    pub req_done: bool,
    pub started_ms: u64,
    pub timestamp_ms: u64,
    pub resp_status: Option<u16>,
    pub resp_headers: Vec<(String, String)>,
    pub resp_body: Vec<u8>,
    /// END_STREAM seen on the response side.
    pub resp_done: bool,
    pub tls: bool,
}

/// The request head of a stream.
pub struct ReqView {
    pub method: Option<Seq<char>>,
    pub path: Option<Seq<char>>,
    pub scheme: Option<Seq<char>>,
    pub authority: Option<Seq<char>>,
    pub headers: Seq<(Seq<char>, Seq<char>)>,
}

/// The response head of a stream.
pub struct RespView {
    pub status: Option<u16>,
    pub headers: Seq<(Seq<char>, Seq<char>)>,
}

impl H2Stream {
    pub open spec fn req_view(&self) -> ReqView {
        ReqView {
            method: opt_str(self.req_method),
            path: opt_str(self.req_path),
            scheme: opt_str(self.req_scheme),
            authority: opt_str(self.req_authority),
            headers: pairs_view(self.req_headers@),
        }
    }

    pub open spec fn resp_view(&self) -> RespView {
        RespView { status: self.resp_status, headers: pairs_view(self.resp_headers@) }
    }

    /// Everything but the request head.
    pub open spec fn same_but_req_head(&self, o: &H2Stream) -> bool {
        &&& self.resp_view() == o.resp_view()
        &&& self.req_body@ == o.req_body@
        &&& self.resp_body@ == o.resp_body@
        &&& self.req_done == o.req_done
        &&& self.resp_done == o.resp_done
        &&& self.started_ms == o.started_ms
        &&& self.timestamp_ms == o.timestamp_ms
        &&& self.tls == o.tls
    }

    /// Everything but the response head.
    pub open spec fn same_but_resp_head(&self, o: &H2Stream) -> bool {
        &&& self.req_view() == o.req_view()
        &&& self.req_body@ == o.req_body@
        &&& self.resp_body@ == o.resp_body@
        &&& self.req_done == o.req_done
        &&& self.resp_done == o.resp_done
        &&& self.started_ms == o.started_ms
        &&& self.timestamp_ms == o.timestamp_ms
        &&& self.tls == o.tls
    }

    pub open spec fn is_fresh(&self, tls: bool, now_ms: u64, wall_ms: u64) -> bool {
        &&& self.req_view() == ReqView {
            method: None,
            path: None,
            scheme: None,
            authority: None,
            headers: Seq::empty(),
        }
        &&& self.resp_view() == RespView { status: None, headers: Seq::empty() }
        &&& self.req_body@.len() == 0
        &&& self.resp_body@.len() == 0
        &&& !self.req_done
        &&& !self.resp_done
        &&& self.started_ms == now_ms
        &&& self.timestamp_ms == wall_ms
        &&& self.tls == tls
    }

    pub fn new(tls: bool, now_ms: u64, wall_ms: u64) -> (r: H2Stream)
        ensures
            r.is_fresh(tls, now_ms, wall_ms),
    {
        let r = H2Stream {
            req_method: None,
            req_path: None,
            req_authority: None,
            req_scheme: None,
            req_headers: Vec::new(),
            req_body: Vec::new(),
            req_done: false,
            started_ms: now_ms,
            timestamp_ms: wall_ms,
            resp_status: None,
            resp_headers: Vec::new(),
            resp_body: Vec::new(),
            resp_done: false,
            tls,
        };
        proof {
            assert(pairs_view(r.req_headers@) =~= Seq::empty());
            assert(pairs_view(r.resp_headers@) =~= Seq::empty());
        }
        r
    }
}

pub open spec fn name_method() -> Seq<u8> {
    seq![58u8, 109, 101, 116, 104, 111, 100]
}

pub open spec fn name_path() -> Seq<u8> {
    seq![58u8, 112, 97, 116, 104]
}

pub open spec fn name_scheme() -> Seq<u8> {
    seq![58u8, 115, 99, 104, 101, 109, 101]
}

pub open spec fn name_authority() -> Seq<u8> {
    seq![58u8, 97, 117, 116, 104, 111, 114, 105, 116, 121]
}

pub open spec fn name_status() -> Seq<u8> {
    seq![58u8, 115, 116, 97, 116, 117, 115]
}

/// A name that begins with a colon is a pseudo-header.
pub open spec fn is_pseudo(n: Seq<u8>) -> bool {
    n.len() > 0 && n[0] == 58
}

pub open spec fn hs_view(v: Seq<(Vec<u8>, Vec<u8>)>) -> Seq<(Seq<u8>, Seq<u8>)> {
    v.map_values(|p: (Vec<u8>, Vec<u8>)| (p.0@, p.1@))
}

/// One decoded request header applied to the request head: the four request
/// pseudo-headers fill their slots, other pseudo-headers are dropped, and a
/// regular header is recorded.
pub open spec fn apply_req_one(v: ReqView, n: Seq<u8>, val: Seq<u8>) -> ReqView {
    if n == name_method() {
        ReqView { method: Some(lossy_of(val)), ..v }
    } else if n == name_path() {
        ReqView { path: Some(lossy_of(val)), ..v }
    } else if n == name_scheme() {
        ReqView { scheme: Some(lossy_of(val)), ..v }
    } else if n == name_authority() {
        ReqView { authority: Some(lossy_of(val)), ..v }
    } else if !is_pseudo(n) {
        ReqView { headers: v.headers.push((lossy_of(n), lossy_of(val))), ..v }
    } else {
        v
    }
}

pub open spec fn apply_req_all(v: ReqView, hs: Seq<(Seq<u8>, Seq<u8>)>) -> ReqView
    decreases hs.len(),
{
    if hs.len() == 0 {
        v
    } else {
        let last = hs.last();
        apply_req_one(apply_req_all(v, hs.drop_last()), last.0, last.1)
    }
}

/// One decoded response header applied to the response head: `:status`
/// sets the status (none when the value is no number), other pseudo-headers
/// are dropped, and a regular header is recorded.
pub open spec fn apply_resp_one(v: RespView, n: Seq<u8>, val: Seq<u8>) -> RespView {
    if n == name_status() {
        RespView { status: u16_parse_of(lossy_of(val)), ..v }
    } else if !is_pseudo(n) {
        RespView { headers: v.headers.push((lossy_of(n), lossy_of(val))), ..v }
    } else {
        v
    }
}

pub open spec fn apply_resp_all(v: RespView, hs: Seq<(Seq<u8>, Seq<u8>)>) -> RespView
    decreases hs.len(),
{
    if hs.len() == 0 {
        v
    } else {
        let last = hs.last();
        apply_resp_one(apply_resp_all(v, hs.drop_last()), last.0, last.1)
    }
}

fn set_opt(slot: &mut Option<String>, val: &Vec<u8>)
    ensures
        opt_str(*final(slot)) == Some(lossy_of(val@)),
{
    *slot = Some(utf8_lossy(val.as_slice()));
}

fn push_pair(list: &mut Vec<(String, String)>, n: &Vec<u8>, val: &Vec<u8>)
    ensures
        pairs_view(final(list)@) == pairs_view(old(list)@).push((lossy_of(n@), lossy_of(val@))),
{
    let pair = (utf8_lossy(n.as_slice()), utf8_lossy(val.as_slice()));
    list.push(pair);
    proof {
        assert(pairs_view(final(list)@) =~= pairs_view(old(list)@).push((lossy_of(n@), lossy_of(val@))));
    }
}

/// Applies decoded request headers to a stream, in order.
pub fn apply_h2_request_headers(stream: &mut H2Stream, headers: Vec<(Vec<u8>, Vec<u8>)>)
    ensures
        final(stream).req_view() == apply_req_all(old(stream).req_view(), hs_view(headers@)),
        final(stream).same_but_req_head(&*old(stream)),
{
    let m = vec![58u8, 109, 101, 116, 104, 111, 100];
    let p = vec![58u8, 112, 97, 116, 104];
    let s = vec![58u8, 115, 99, 104, 101, 109, 101];
    let a = vec![58u8, 97, 117, 116, 104, 111, 114, 105, 116, 121];
    proof {
        assert(m@ =~= name_method());
        assert(p@ =~= name_path());
        assert(s@ =~= name_scheme());
        assert(a@ =~= name_authority());
    }
    let mut i: usize = 0;
    while i < headers.len()
        invariant
            i <= headers@.len(),
            m@ == name_method(),
            p@ == name_path(),
            s@ == name_scheme(),
            a@ == name_authority(),
            stream.req_view() == apply_req_all(old(stream).req_view(), hs_view(headers@).take(i as int)),
            stream.same_but_req_head(&*old(stream)),
        decreases headers@.len() - i,
    {
        let (n, v) = &headers[i];
        proof {
            let hs = hs_view(headers@);
            assert(hs.take(i + 1).drop_last() =~= hs.take(i as int));
            assert(hs.take(i + 1).last() == (n@, v@));
        }
        if bytes_eq(n.as_slice(), m.as_slice()) {
            set_opt(&mut stream.req_method, v);
        } else if bytes_eq(n.as_slice(), p.as_slice()) {
            set_opt(&mut stream.req_path, v);
        } else if bytes_eq(n.as_slice(), s.as_slice()) {
            set_opt(&mut stream.req_scheme, v);
        } else if bytes_eq(n.as_slice(), a.as_slice()) {
            set_opt(&mut stream.req_authority, v);
        } else if n.len() == 0 || n[0] != 58 {
            push_pair(&mut stream.req_headers, n, v);
        }
        i = i + 1;
    }
    proof {
        assert(hs_view(headers@).take(headers@.len() as int) =~= hs_view(headers@));
    }
}

/// Applies decoded response headers to a stream, in order.
pub fn apply_h2_response_headers(stream: &mut H2Stream, headers: Vec<(Vec<u8>, Vec<u8>)>)
    ensures
        final(stream).resp_view() == apply_resp_all(old(stream).resp_view(), hs_view(headers@)),
        final(stream).same_but_resp_head(&*old(stream)),
{
    let st = vec![58u8, 115, 116, 97, 116, 117, 115];
    proof {
        assert(st@ =~= name_status());
    }
    let mut i: usize = 0;
    while i < headers.len()
        invariant
            i <= headers@.len(),
            st@ == name_status(),
            stream.resp_view() == apply_resp_all(old(stream).resp_view(), hs_view(headers@).take(i as int)),
            stream.same_but_resp_head(&*old(stream)),
        decreases headers@.len() - i,
    {
        let (n, v) = &headers[i];
        proof {
            let hs = hs_view(headers@);
            assert(hs.take(i + 1).drop_last() =~= hs.take(i as int));
            assert(hs.take(i + 1).last() == (n@, v@));
        }
        if bytes_eq(n.as_slice(), st.as_slice()) {
            let text = utf8_lossy(v.as_slice());
            stream.resp_status = parse_u16(text.as_str());
        } else if n.len() == 0 || n[0] != 58 {
            push_pair(&mut stream.resp_headers, n, v);
        }
        i = i + 1;
    }
    proof {
        assert(hs_view(headers@).take(headers@.len() as int) =~= hs_view(headers@));
    }
}

} // verus!

verus! {

/// One direction of an HTTP/2 connection.
pub struct H2Half {
    /// Bytes not yet consumed as complete frames.
    pub buf: Vec<u8>,
    /// Decoder whose dynamic table persists across this direction's blocks.
    pub hpack: hpack::Decoder<'static>,
    /// Stream whose header block continues in CONTINUATION frames.
    pub cont_sid: Option<u32>,
    pub cont_buf: Vec<u8>,
    pub cont_end_stream: bool,
}

impl H2Half {
    pub fn new() -> (r: H2Half)
        ensures
            r.buf@.len() == 0,
            r.state() == fresh_half(),
    {
        let r = H2Half {
            buf: Vec::new(),
            hpack: new_hpack_decoder(),
            cont_sid: None,
            cont_buf: Vec::new(),
            cont_end_stream: false,
        };
        proof {
            assert(r.cont_buf@ =~= Seq::<u8>::empty());
            assert(r.state() =~= fresh_half());
        }
        r
    }
}

/// A direction with no block pending and a new decoder.
pub open spec fn fresh_half() -> HalfView {
    HalfView {
        sid: None,
        block: Seq::empty(),
        end_stream: false,
        dec: DecView { max_size: 4096, table: Seq::empty() },
    }
}

/// Per-connection HTTP/2 state.
pub struct H2ConnState {
    pub tls: bool,
    /// Request direction (client to server).
    pub send: H2Half,
    /// Response direction (server to client).
    pub recv: H2Half,
    /// Open streams in the order they were first seen, each id once.
    pub streams: Vec<(u32, H2Stream)>,
}

pub open spec fn ids_unique(s: Seq<(u32, H2Stream)>) -> bool {
    forall|i: int, j: int| 0 <= i < j < s.len() ==> s[i].0 != s[j].0
}

pub open spec fn has_id(s: Seq<(u32, H2Stream)>, id: u32) -> bool {
    exists|i: int| 0 <= i < s.len() && s[i].0 == id
}

/// Every id of `a` is an id of `b`.
pub open spec fn ids_kept(a: Seq<(u32, H2Stream)>, b: Seq<(u32, H2Stream)>) -> bool {
    forall|id: u32| has_id(a, id) ==> has_id(b, id)
}

impl H2ConnState {
    pub open spec fn wf(&self) -> bool {
        ids_unique(self.streams@)
    }

    pub fn new(tls: bool) -> (r: H2ConnState)
        ensures
            r.wf(),
            r.tls == tls,
            r.streams@.len() == 0,
            r.send.buf@.len() == 0,
            r.recv.buf@.len() == 0,
            r.send.state() == (fresh_half()),
            r.recv.state() == (fresh_half()),
    {
        H2ConnState { tls, send: H2Half::new(), recv: H2Half::new(), streams: Vec::new() }
    }
}

/// What is left of `buf` once every complete frame at its head is consumed.
pub open spec fn frames_rest(buf: Seq<u8>) -> Seq<u8>
    decreases buf.len(),
{
    match frame_header_spec(buf) {
        None => buf,
        Some((n, _, _, _)) => {
            if buf.len() < 9 + n {
                buf
            } else {
                frames_rest(buf.subrange(9 + n, buf.len() as int))
            }
        },
    }
}

fn find_stream(streams: &Vec<(u32, H2Stream)>, sid: u32) -> (r: Option<usize>)
    ensures
        r matches Some(i) ==> i < streams@.len() && streams@[i as int].0 == sid,
        r is None ==> !has_id(streams@, sid),
{
    let mut i: usize = 0;
    while i < streams.len()
        invariant
            i <= streams@.len(),
            forall|j: int| 0 <= j < i ==> streams@[j].0 != sid,
        decreases streams@.len() - i,
    {
        if streams[i].0 == sid {
            return Some(i);
        }
        i = i + 1;
    }
    None
}

proof fn lemma_update_keeps_ids(s: Seq<(u32, H2Stream)>, i: int, e: (u32, H2Stream))
    requires
        0 <= i < s.len(),
        e.0 == s[i].0,
        ids_unique(s),
    ensures
        ids_unique(s.update(i, e)),
        ids_kept(s, s.update(i, e)),
{
    let t = s.update(i, e);
    assert forall|id: u32| has_id(s, id) implies has_id(t, id) by {
        let k = choose|k: int| 0 <= k < s.len() && s[k].0 == id;
        assert(t[k].0 == id);
    }
}

/// Takes the stream `sid` out of the list, creating it when absent; the
/// caller puts it back with `put_stream` at the returned index.
fn take_stream(streams: &mut Vec<(u32, H2Stream)>, sid: u32, tls: bool, now_ms: u64, wall_ms: u64) -> (r: (usize, H2Stream))
    requires
        ids_unique(old(streams)@),
    ensures
        r.0 <= final(streams)@.len(),
        ids_unique(final(streams)@.insert(r.0 as int, (sid, r.1))),
        ids_kept(old(streams)@, final(streams)@.insert(r.0 as int, (sid, r.1))),
        has_id(old(streams)@, sid) ==> final(streams)@.insert(r.0 as int, (sid, r.1))
            == old(streams)@.update(r.0 as int, (sid, r.1)) && old(streams)@[r.0 as int].1 == r.1
            && r.0 < old(streams)@.len() && old(streams)@[r.0 as int].0 == sid
            && final(streams)@ == old(streams)@.remove(r.0 as int),
        !has_id(old(streams)@, sid) ==> r.1.is_fresh(tls, now_ms, wall_ms) && r.0 == old(streams)@.len()
            && final(streams)@ == old(streams)@,
{
    match find_stream(streams, sid) {
        Some(i) => {
            let (id, s) = streams.remove(i);
            proof {
                assert(final(streams)@.insert(i as int, (sid, s)) =~= old(streams)@);
                assert(old(streams)@.update(i as int, (sid, s)) =~= old(streams)@);
                assert(ids_kept(old(streams)@, old(streams)@));
            }
            (i, s)
        },
        None => {
            let s = H2Stream::new(tls, now_ms, wall_ms);
            let i = streams.len();
            proof {
                let t = final(streams)@.insert(i as int, (sid, s));
                assert(t =~= old(streams)@.push((sid, s)));
                assert forall|id: u32| has_id(old(streams)@, id) implies has_id(t, id) by {
                    let k = choose|k: int| 0 <= k < old(streams)@.len() && old(streams)@[k].0 == id;
                    assert(t[k].0 == id);
                }
            }
            (i, s)
        },
    }
}

fn put_stream(streams: &mut Vec<(u32, H2Stream)>, i: usize, sid: u32, s: H2Stream)
    requires
        i <= old(streams)@.len(),
    ensures
        final(streams)@ == old(streams)@.insert(i as int, (sid, s)),
{
    streams.insert(i, (sid, s));
}

/// A stream as the contracts see it.
pub struct StreamView {
    pub req: ReqView,
    pub resp: RespView,
    pub req_body: Seq<u8>,
    pub resp_body: Seq<u8>,
    pub req_done: bool,
    pub resp_done: bool,
    pub started_ms: u64,
    pub timestamp_ms: u64,
    pub tls: bool,
}

impl View for H2Stream {
    type V = StreamView;

    open spec fn view(&self) -> StreamView {
        StreamView {
            req: self.req_view(),
            resp: self.resp_view(),
            req_body: self.req_body@,
            resp_body: self.resp_body@,
            req_done: self.req_done,
            resp_done: self.resp_done,
            started_ms: self.started_ms,
            timestamp_ms: self.timestamp_ms,
            tls: self.tls,
        }
    }
}

pub open spec fn streams_view(s: Seq<(u32, H2Stream)>) -> Seq<(u32, StreamView)> {
    s.map_values(|e: (u32, H2Stream)| (e.0, e.1@))
}

pub open spec fn fresh_view(tls: bool, now_ms: u64, wall_ms: u64) -> StreamView {
    StreamView {
        req: ReqView { method: None, path: None, scheme: None, authority: None, headers: Seq::empty() },
        resp: RespView { status: None, headers: Seq::empty() },
        req_body: Seq::empty(),
        resp_body: Seq::empty(),
        req_done: false,
        resp_done: false,
        started_ms: now_ms,
        timestamp_ms: wall_ms,
        tls,
    }
}

/// Where stream `sid` sits in `s`, if it is there.
pub open spec fn find_idx(s: Seq<(u32, StreamView)>, sid: u32) -> Option<int> {
    if exists|i: int| 0 <= i < s.len() && s[i].0 == sid {
        Some(choose|i: int| 0 <= i < s.len() && s[i].0 == sid)
    } else {
        None
    }
}

/// A decoded header list applied to one side of a stream; END_STREAM marks
/// that side done.
pub open spec fn headers_applied(
    v: StreamView,
    dec: Seq<(Seq<u8>, Seq<u8>)>,
    is_request: bool,
    end_stream: bool,
) -> StreamView {
    if is_request {
        StreamView { req: apply_req_all(v.req, dec), req_done: v.req_done || end_stream, ..v }
    } else {
        StreamView { resp: apply_resp_all(v.resp, dec), resp_done: v.resp_done || end_stream, ..v }
    }
}

/// Headers for `sid`, creating the stream at the end when it is new.
pub open spec fn upsert_headers(
    s: Seq<(u32, StreamView)>,
    sid: u32,
    dec: Seq<(Seq<u8>, Seq<u8>)>,
    is_request: bool,
    end_stream: bool,
    tls: bool,
    now_ms: u64,
    wall_ms: u64,
) -> Seq<(u32, StreamView)> {
    match find_idx(s, sid) {
        Some(i) => s.update(i, (sid, headers_applied(s[i].1, dec, is_request, end_stream))),
        None => s.push((sid, headers_applied(fresh_view(tls, now_ms, wall_ms), dec, is_request, end_stream))),
    }
}

/// DATA appended to one side's body up to the buffer cap; END_STREAM marks
/// that side done.
pub open spec fn data_applied(v: StreamView, data: Seq<u8>, is_request: bool, end_stream: bool) -> StreamView {
    if is_request {
        StreamView {
            req_body: capped_append(v.req_body, data, MAX_BUF as nat),
            req_done: v.req_done || end_stream,
            ..v
        }
    } else {
        StreamView {
            resp_body: capped_append(v.resp_body, data, MAX_BUF as nat),
            resp_done: v.resp_done || end_stream,
            ..v
        }
    }
}

/// DATA for `sid`; dropped when the stream is unknown.
pub open spec fn add_data(s: Seq<(u32, StreamView)>, sid: u32, data: Seq<u8>, is_request: bool, end_stream: bool) -> Seq<(u32, StreamView)> {
    match find_idx(s, sid) {
        Some(i) => s.update(i, (sid, data_applied(s[i].1, data, is_request, end_stream))),
        None => s,
    }
}

/// One direction's header-block state: the CONTINUATION accumulator
/// (pending stream, partial block, pending END_STREAM) and the decoder.
pub struct HalfView {
    pub sid: Option<u32>,
    pub block: Seq<u8>,
    pub end_stream: bool,
    pub dec: DecView,
}

impl H2Half {
    pub open spec fn state(&self) -> HalfView {
        HalfView {
            sid: self.cont_sid,
            block: self.cont_buf@,
            end_stream: self.cont_end_stream,
            dec: dec_view(self.hpack),
        }
    }
}

/// One frame applied to one direction. HEADERS with END_HEADERS decodes its
/// fragment (padding and priority stripped); HEADERS without it starts a
/// block that CONTINUATION frames of the same stream extend, and the one with
/// END_HEADERS decodes the whole block at once. A CONTINUATION for another
/// stream is dropped; frames of other types, and on stream 0, change nothing.
pub open spec fn frame_step(
    c: HalfView,
    s: Seq<(u32, StreamView)>,
    kind: u8,
    flags: u8,
    sid: u32,
    p: Seq<u8>,
    is_request: bool,
    tls: bool,
    now_ms: u64,
    wall_ms: u64,
) -> (HalfView, Seq<(u32, StreamView)>) {
    let end_stream = has_flag(flags, H2_FLAG_END_STREAM);
    let end_headers = has_flag(flags, H2_FLAG_END_HEADERS);
    if sid > 0 && kind == H2_TYPE_HEADERS {
        let r = header_block_spec(p, flags);
        let fragment = p.subrange(r.0 as int, r.1 as int);
        if end_headers {
            let d = block_decoded(c.dec, fragment);
            (HalfView { dec: d.1, ..c }, upsert_headers(s, sid, d.0, is_request, end_stream, tls, now_ms, wall_ms))
        } else {
            (HalfView { sid: Some(sid), block: fragment, end_stream, dec: c.dec }, s)
        }
    } else if sid > 0 && kind == H2_TYPE_DATA {
        let r = data_range_spec(p, flags);
        (c, add_data(s, sid, p.subrange(r.0 as int, r.1 as int), is_request, end_stream))
    } else if sid > 0 && kind == H2_TYPE_CONTINUATION && c.sid == Some(sid) {
        let block = capped_append(c.block, p, MAX_BUF as nat);
        if end_headers {
            let d = block_decoded(c.dec, block);
            (
                HalfView { sid: None, block: Seq::empty(), end_stream: false, dec: d.1 },
                upsert_headers(s, sid, d.0, is_request, c.end_stream, tls, now_ms, wall_ms),
            )
        } else {
            (HalfView { block, ..c }, s)
        }
    } else {
        (c, s)
    }
}

/// Every complete frame at the head of `buf` applied in order.
pub open spec fn frames_walk(
    c: HalfView,
    s: Seq<(u32, StreamView)>,
    buf: Seq<u8>,
    is_request: bool,
    tls: bool,
    now_ms: u64,
    wall_ms: u64,
) -> (HalfView, Seq<(u32, StreamView)>)
    decreases buf.len(),
{
    match frame_header_spec(buf) {
        None => (c, s),
        Some((n, kind, flags, sid)) => {
            if buf.len() < 9 + n {
                (c, s)
            } else {
                let (c2, s2) = frame_step(c, s, kind, flags, sid, buf.subrange(9, 9 + n), is_request, tls, now_ms, wall_ms);
                frames_walk(c2, s2, buf.subrange(9 + n, buf.len() as int), is_request, tls, now_ms, wall_ms)
            }
        },
    }
}

proof fn lemma_find_idx(s: Seq<(u32, H2Stream)>, sid: u32, i: int)
    requires
        ids_unique(s),
        0 <= i < s.len(),
        s[i].0 == sid,
    ensures
        find_idx(streams_view(s), sid) == Some(i),
{
    let v = streams_view(s);
    assert(v[i].0 == sid);
    let j = choose|j: int| 0 <= j < v.len() && v[j].0 == sid;
    assert(s[j].0 == sid);
}

proof fn lemma_find_none(s: Seq<(u32, H2Stream)>, sid: u32)
    requires
        !has_id(s, sid),
    ensures
        find_idx(streams_view(s), sid) is None,
{
    let v = streams_view(s);
    if exists|j: int| 0 <= j < v.len() && v[j].0 == sid {
        let j = choose|j: int| 0 <= j < v.len() && v[j].0 == sid;
        assert(s[j].0 == sid);
    }
}

/// Decoded headers for `sid` applied to its request or response head; the
/// stream is created when absent, and END_STREAM marks that side done.
fn stream_headers(
    streams: &mut Vec<(u32, H2Stream)>,
    sid: u32,
    headers: Vec<(Vec<u8>, Vec<u8>)>,
    is_request: bool,
    end_stream: bool,
    tls: bool,
    now_ms: u64,
    wall_ms: u64,
)
    requires
        ids_unique(old(streams)@),
    ensures
        ids_unique(final(streams)@),
        ids_kept(old(streams)@, final(streams)@),
        streams_view(final(streams)@) == upsert_headers(
            streams_view(old(streams)@),
            sid,
            hs_view(headers@),
            is_request,
            end_stream,
            tls,
            now_ms,
            wall_ms,
        ),
{
    let ghost dec = hs_view(headers@);
    let (i, mut s) = take_stream(streams, sid, tls, now_ms, wall_ms);
    let ghost s_before = s;
    if is_request {
        apply_h2_request_headers(&mut s, headers);
        s.req_done = s.req_done || end_stream;
    } else {
        apply_h2_response_headers(&mut s, headers);
        s.resp_done = s.resp_done || end_stream;
    }
    proof {
        assert(s@ == headers_applied(s_before@, dec, is_request, end_stream));
    }
    let ghost before = streams@;
    put_stream(streams, i, sid, s);
    proof {
        let t0 = before.insert(i as int, (sid, s_before));
        assert forall|k: int| 0 <= k < streams@.len() implies streams@[k].0 == t0[k].0 by {
            if k < i {
            } else if k == i {
            } else {
            }
        }
        assert(ids_unique(streams@)) by {
            assert forall|a: int, b: int| 0 <= a < b < streams@.len() implies streams@[a].0
                != streams@[b].0 by {
                assert(streams@[a].0 == t0[a].0);
                assert(streams@[b].0 == t0[b].0);
            }
        }
        assert(streams@[i as int].0 == sid);
        assert forall|id: u32| has_id(old(streams)@, id) implies has_id(streams@, id) by {
            assert(has_id(t0, id));
            let k = choose|k: int| 0 <= k < t0.len() && t0[k].0 == id;
            assert(streams@[k].0 == id);
        }
        let ov = streams_view(old(streams)@);
        if has_id(old(streams)@, sid) {
            lemma_find_idx(old(streams)@, sid, i as int);
            assert(streams@ =~= old(streams)@.update(i as int, (sid, s)));
            assert(streams_view(streams@) =~= ov.update(i as int, (sid, headers_applied(ov[i as int].1, dec, is_request, end_stream))));
        } else {
            lemma_find_none(old(streams)@, sid);
            assert(s_before.req_body@ =~= Seq::<u8>::empty());
            assert(s_before.resp_body@ =~= Seq::<u8>::empty());
            assert(s_before@ =~= fresh_view(tls, now_ms, wall_ms));
            assert(streams@ =~= old(streams)@.push((sid, s)));
            assert(streams_view(streams@) =~= ov.push((sid, headers_applied(fresh_view(tls, now_ms, wall_ms), dec, is_request, end_stream))));
        }
    }
}

/// DATA for `sid` appended to its request or response body, up to the
/// buffer cap; END_STREAM marks that side done. Data for an unknown stream
/// is dropped.
fn stream_data(
    streams: &mut Vec<(u32, H2Stream)>,
    sid: u32,
    payload: &[u8],
    from: usize,
    to: usize,
    is_request: bool,
    end_stream: bool,
)
    requires
        ids_unique(old(streams)@),
        from <= to <= payload@.len(),
    ensures
        ids_unique(final(streams)@),
        ids_kept(old(streams)@, final(streams)@),
        streams_view(final(streams)@) == add_data(
            streams_view(old(streams)@),
            sid,
            payload@.subrange(from as int, to as int),
            is_request,
            end_stream,
        ),
{
    match find_stream(streams, sid) {
        None => {
            proof {
                lemma_find_none(old(streams)@, sid);
            }
        },
        Some(i) => {
            let (id, mut s) = streams.remove(i);
            let data = vstd::slice::slice_subrange(payload, from, to);
            if is_request {
                append_capped(&mut s.req_body, data, MAX_BUF);
                s.req_done = s.req_done || end_stream;
            } else {
                append_capped(&mut s.resp_body, data, MAX_BUF);
                s.resp_done = s.resp_done || end_stream;
            }
            streams.insert(i, (id, s));
            proof {
                assert(streams@ =~= old(streams)@.update(i as int, (id, s)));
                lemma_update_keeps_ids(old(streams)@, i as int, (id, s));
                lemma_find_idx(old(streams)@, sid, i as int);
                let ov = streams_view(old(streams)@);
                assert(s@ == data_applied(ov[i as int].1, payload@.subrange(from as int, to as int), is_request, end_stream));
                assert(streams_view(streams@) =~= ov.update(i as int, (sid, s@)));
            }
        },
    }
}

/// Consumes every complete frame at the head of one direction's buffer, as
/// `frames_walk` says. Every other frame is skipped by its length.
fn process_frames(
    half: &mut H2Half,
    streams: &mut Vec<(u32, H2Stream)>,
    is_request: bool,
    tls: bool,
    now_ms: u64,
    wall_ms: u64,
)
    requires
        ids_unique(old(streams)@),
    ensures
        final(half).buf@ == frames_rest(old(half).buf@),
        ids_unique(final(streams)@),
        ids_kept(old(streams)@, final(streams)@),
        frames_walk(old(half).state(), streams_view(old(streams)@), old(half).buf@, is_request, tls, now_ms, wall_ms)
            == (final(half).state(), streams_view(final(streams)@)),
{
    loop
        invariant
            frames_rest(half.buf@) == frames_rest(old(half).buf@),
            ids_unique(streams@),
            ids_kept(old(streams)@, streams@),
            frames_walk(old(half).state(), streams_view(old(streams)@), old(half).buf@, is_request, tls, now_ms, wall_ms)
                == frames_walk(half.state(), streams_view(streams@), half.buf@, is_request, tls, now_ms, wall_ms),
        decreases half.buf@.len(),
    {
        let hdr = parse_h2_frame_header(half.buf.as_slice());
        let (payload_len, frame_type, flags, stream_id) = match hdr {
            None => {
                return;
            },
            Some(h) => h,
        };
        if half.buf.len() - H2_FRAME_HDR_LEN < payload_len {
            return;
        }
        let total = H2_FRAME_HDR_LEN + payload_len;
        let payload = copy_range(half.buf.as_slice(), H2_FRAME_HDR_LEN, total);
        let ghost before = half.buf@;
        let ghost c1 = half.state();
        let ghost sv1 = streams_view(streams@);
        drop_front(&mut half.buf, total);
        proof {
            assert(frames_rest(before) == frames_rest(half.buf@));
        }
        let ghost s_prev = streams@;
        let end_stream = flags & H2_FLAG_END_STREAM != 0;
        let end_headers = flags & H2_FLAG_END_HEADERS != 0;
        if stream_id > 0 && frame_type == H2_TYPE_HEADERS {
            let (hb_start, hb_end) = h2_header_block_range(payload.as_slice(), flags);
            if end_headers {
                let decoded = decode_block(
                    &mut half.hpack,
                    vstd::slice::slice_subrange(payload.as_slice(), hb_start, hb_end),
                );
                stream_headers(streams, stream_id, decoded, is_request, end_stream, tls, now_ms, wall_ms);
            } else {
                half.cont_sid = Some(stream_id);
                half.cont_buf = copy_range(payload.as_slice(), hb_start, hb_end);
                half.cont_end_stream = end_stream;
            }
        } else if stream_id > 0 && frame_type == H2_TYPE_DATA {
            let (from, to) = h2_data_range(payload.as_slice(), flags);
            stream_data(streams, stream_id, payload.as_slice(), from, to, is_request, end_stream);
        } else if stream_id > 0 && frame_type == H2_TYPE_CONTINUATION && half.cont_sid == Some(stream_id) {
            append_capped(&mut half.cont_buf, payload.as_slice(), MAX_BUF);
            if end_headers {
                let mut block: Vec<u8> = Vec::new();
                std::mem::swap(&mut block, &mut half.cont_buf);
                let decoded = decode_block(&mut half.hpack, block.as_slice());
                let pending_end = half.cont_end_stream;
                stream_headers(streams, stream_id, decoded, is_request, pending_end, tls, now_ms, wall_ms);
                half.cont_sid = None;
                half.cont_end_stream = false;
            }
        }
        proof {
            assert(ids_kept(old(streams)@, streams@)) by {
                assert forall|id: u32| has_id(old(streams)@, id) implies has_id(streams@, id) by {
                    assert(has_id(s_prev, id));
                }
            }
            assert(half.cont_buf@.len() == 0 ==> half.cont_buf@ =~= Seq::<u8>::empty());
            assert(half.state() =~= frame_step(c1, sv1, frame_type, flags, stream_id, payload@, is_request, tls, now_ms, wall_ms).0);
            assert((half.state(), streams_view(streams@)) == frame_step(c1, sv1, frame_type, flags, stream_id, payload@, is_request, tls, now_ms, wall_ms));
            assert(frames_walk(c1, sv1, before, is_request, tls, now_ms, wall_ms)
                == frames_walk(half.state(), streams_view(streams@), half.buf@, is_request, tls, now_ms, wall_ms));
        }
    }
}

/// Feeds request-direction bytes: a leading client preface is skipped, then
/// every complete frame is consumed. The response side, decoder included,
/// is untouched.
pub fn process_h2_send_frames(h2: &mut H2ConnState, now_ms: u64, wall_ms: u64)
    requires
        old(h2).wf(),
    ensures
        final(h2).wf(),
        final(h2).tls == old(h2).tls,
        ids_kept(old(h2).streams@, final(h2).streams@),
        final(h2).send.buf@ == frames_rest(preface_skipped(old(h2).send.buf@)),
        final(h2).recv.buf@ == old(h2).recv.buf@,
        final(h2).recv.state() == old(h2).recv.state(),
        frames_walk(old(h2).send.state(), streams_view(old(h2).streams@), preface_skipped(old(h2).send.buf@), true, old(h2).tls, now_ms, wall_ms)
            == (final(h2).send.state(), streams_view(final(h2).streams@)),
{
    if starts_with_preface(h2.send.buf.as_slice()) {
        drop_front(&mut h2.send.buf, 24);
    }
    let tls = h2.tls;
    process_frames(&mut h2.send, &mut h2.streams, true, tls, now_ms, wall_ms);
}

/// The request-side bytes with a leading client preface removed.
pub open spec fn preface_skipped(b: Seq<u8>) -> Seq<u8> {
    if b.len() >= 24 && b.take(24) == preface_spec() {
        b.subrange(24, b.len() as int)
    } else {
        b
    }
}

/// Feeds response-direction bytes: every complete frame is consumed. The
/// request side, decoder included, is untouched.
pub fn process_h2_recv_frames(h2: &mut H2ConnState, now_ms: u64, wall_ms: u64)
    requires
        old(h2).wf(),
    ensures
        final(h2).wf(),
        final(h2).tls == old(h2).tls,
        ids_kept(old(h2).streams@, final(h2).streams@),
        final(h2).recv.buf@ == frames_rest(old(h2).recv.buf@),
        final(h2).send.buf@ == old(h2).send.buf@,
        final(h2).send.state() == old(h2).send.state(),
        frames_walk(old(h2).recv.state(), streams_view(old(h2).streams@), old(h2).recv.buf@, false, old(h2).tls, now_ms, wall_ms)
            == (final(h2).recv.state(), streams_view(final(h2).streams@)),
{
    let tls = h2.tls;
    process_frames(&mut h2.recv, &mut h2.streams, false, tls, now_ms, wall_ms);
}

} // verus!

verus! {

/// A response status has been seen (`by_end` false), or a status and the
/// response's END_STREAM (`by_end` true).
pub open spec fn done_by(s: H2Stream, by_end: bool) -> bool {
    s.resp_status is Some && (by_end ==> s.resp_done)
}

/// The streams of `s`, in order, for which `done_by(_, by_end) == want`.
pub open spec fn select(s: Seq<(u32, H2Stream)>, by_end: bool, want: bool) -> Seq<(u32, H2Stream)>
    decreases s.len(),
{
    if s.len() == 0 {
        s
    } else {
        let k = select(s.drop_last(), by_end, want);
        if done_by(s.last().1, by_end) == want {
            k.push(s.last())
        } else {
            k
        }
    }
}

/// Splits `v` into the streams that are done and those that are not, each
/// in order.
fn split_done(v: Vec<(u32, H2Stream)>, by_end: bool) -> (r: (Vec<(u32, H2Stream)>, Vec<(u32, H2Stream)>))
    ensures
        r.0@ == select(v@, by_end, true),
        r.1@ == select(v@, by_end, false),
{
    let ghost orig = v@;
    let mut src = v;
    let mut yes: Vec<(u32, H2Stream)> = Vec::new();
    let mut no: Vec<(u32, H2Stream)> = Vec::new();
    let ghost mut i: int = 0;
    while src.len() > 0
        invariant
            0 <= i <= orig.len(),
            src@ == orig.subrange(i, orig.len() as int),
            yes@ == select(orig.take(i), by_end, true),
            no@ == select(orig.take(i), by_end, false),
        decreases src@.len(),
    {
        let e = src.remove(0);
        proof {
            assert(orig.take(i + 1).drop_last() =~= orig.take(i));
            assert(orig.take(i + 1).last() == e);
        }
        let done = match e.1.resp_status {
            Some(_) => !by_end || e.1.resp_done,
            None => false,
        };
        if done {
            yes.push(e);
        } else {
            no.push(e);
        }
        proof {
            i = i + 1;
            assert(src@ =~= orig.subrange(i, orig.len() as int));
        }
    }
    proof {
        assert(orig.take(i) =~= orig);
    }
    (yes, no)
}

/// Removes the complete streams (status seen, response END_STREAM seen) from
/// the connection and returns them in the order they were first seen.
pub fn drain_completed_h2_streams(h2: &mut H2ConnState) -> (r: Vec<(u32, H2Stream)>)
    requires
        old(h2).wf(),
    ensures
        final(h2).wf(),
        r@ == select(old(h2).streams@, true, true),
        final(h2).streams@ == select(old(h2).streams@, true, false),
        final(h2).tls == old(h2).tls,
        final(h2).send.buf@ == old(h2).send.buf@,
        final(h2).recv.buf@ == old(h2).recv.buf@,
        final(h2).send.state() == old(h2).send.state(),
        final(h2).recv.state() == old(h2).recv.state(),
{
    let mut all: Vec<(u32, H2Stream)> = Vec::new();
    std::mem::swap(&mut all, &mut h2.streams);
    let (done, rest) = split_done(all, true);
    h2.streams = rest;
    proof {
        lemma_select_unique(old(h2).streams@, true, false);
    }
    done
}

proof fn lemma_select_subset(s: Seq<(u32, H2Stream)>, by_end: bool, want: bool)
    ensures
        forall|k: int| 0 <= k < select(s, by_end, want).len() ==> exists|j: int| 0 <= j < s.len() && #[trigger] select(s, by_end, want)[k] == s[j],
    decreases s.len(),
{
    if s.len() > 0 {
        lemma_select_subset(s.drop_last(), by_end, want);
        let k0 = select(s.drop_last(), by_end, want);
        assert forall|k: int| 0 <= k < select(s, by_end, want).len() implies exists|j: int| 0 <= j < s.len() && #[trigger] select(s, by_end, want)[k] == s[j] by {
            if k < k0.len() {
                let j = choose|j: int| 0 <= j < s.drop_last().len() && k0[k] == s.drop_last()[j];
                assert(select(s, by_end, want)[k] == s[j]);
            } else {
                assert(select(s, by_end, want)[k] == s[s.len() - 1]);
            }
        }
    }
}

proof fn lemma_select_unique(s: Seq<(u32, H2Stream)>, by_end: bool, want: bool)
    requires
        ids_unique(s),
    ensures
        ids_unique(select(s, by_end, want)),
    decreases s.len(),
{
    if s.len() > 0 {
        let d = s.drop_last();
        assert(ids_unique(d));
        lemma_select_unique(d, by_end, want);
        lemma_select_subset(d, by_end, want);
        let k0 = select(d, by_end, want);
        if done_by(s.last().1, by_end) == want {
            assert forall|a: int, b: int| 0 <= a < b < k0.len() + 1 implies k0.push(s.last())[a].0 != k0.push(s.last())[b].0 by {
                if b == k0.len() {
                    let j = choose|j: int| 0 <= j < d.len() && #[trigger] k0[a] == d[j];
                    assert(s[j].0 != s[s.len() - 1].0);
                }
            }
        }
    }
}

pub open spec fn str_https() -> Seq<char> {
    seq!['h', 't', 't', 'p', 's']
}

pub open spec fn str_http() -> Seq<char> {
    seq!['h', 't', 't', 'p']
}

pub open spec fn str_get() -> Seq<char> {
    seq!['G', 'E', 'T']
}

pub open spec fn str_h2() -> Seq<char> {
    seq!['H', 'T', 'T', 'P', '/', '2']
}

pub open spec fn or_default(o: Option<Seq<char>>, d: Seq<char>) -> Seq<char> {
    match o {
        Some(x) => x,
        None => d,
    }
}

/// `scheme://authority path`, where the scheme falls back to `https` or
/// `http` by the connection's TLS flag, the authority to nothing and the
/// path to `/`.
pub open spec fn h2_url(v: StreamView) -> Seq<char> {
    let scheme = or_default(v.req.scheme, if v.tls { str_https() } else { str_http() });
    scheme + seq![':', '/', '/'] + or_default(v.req.authority, Seq::empty()) + or_default(
        v.req.path,
        seq!['/'],
    )
}

/// The record of a finished (or, at teardown, cut-short) stream.
pub open spec fn h2_record_v(v: StreamView, now_ms: u64) -> HttpMsgView {
    HttpMsgView {
        method: or_default(v.req.method, str_get()),
        url: h2_url(v),
        status_code: match v.resp.status {
            Some(c) => c,
            None => 0,
        },
        request_headers: v.req.headers,
        response_headers: v.resp.headers,
        request_body_b64: body_spec(v.req_body),
        response_body_b64: body_spec(v.resp_body),
        duration_ms: elapsed(v.started_ms, now_ms),
        timestamp_ms: v.timestamp_ms,
        dest_addr: None,
        protocol_version: str_h2(),
    }
}

pub open spec fn h2_record(s: H2Stream, now_ms: u64) -> HttpMsgView {
    h2_record_v(s@, now_ms)
}

pub open spec fn h2_records_v(v: Seq<(u32, StreamView)>, now_ms: u64) -> Seq<HttpMsgView> {
    v.map_values(|e: (u32, StreamView)| h2_record_v(e.1, now_ms))
}

/// `select` on stream views.
pub open spec fn select_v(s: Seq<(u32, StreamView)>, by_end: bool, want: bool) -> Seq<(u32, StreamView)>
    decreases s.len(),
{
    if s.len() == 0 {
        s
    } else {
        let k = select_v(s.drop_last(), by_end, want);
        if (s.last().1.resp.status is Some && (by_end ==> s.last().1.resp_done)) == want {
            k.push(s.last())
        } else {
            k
        }
    }
}

pub proof fn lemma_select_view(s: Seq<(u32, H2Stream)>, by_end: bool, want: bool)
    ensures
        streams_view(select(s, by_end, want)) == select_v(streams_view(s), by_end, want),
    decreases s.len(),
{
    if s.len() > 0 {
        lemma_select_view(s.drop_last(), by_end, want);
        assert(streams_view(s).drop_last() =~= streams_view(s.drop_last()));
        let k = select(s.drop_last(), by_end, want);
        assert(streams_view(k.push(s.last())) =~= streams_view(k).push((s.last().0, s.last().1@)));
    } else {
        assert(streams_view(s) =~= Seq::empty());
    }
}

pub proof fn lemma_records_view(s: Seq<(u32, H2Stream)>, now_ms: u64)
    ensures
        h2_records(s, now_ms) == h2_records_v(streams_view(s), now_ms),
{
    assert(h2_records(s, now_ms) =~= h2_records_v(streams_view(s), now_ms));
}

pub open spec fn h2_records(v: Seq<(u32, H2Stream)>, now_ms: u64) -> Seq<HttpMsgView> {
    v.map_values(|e: (u32, H2Stream)| h2_record(e.1, now_ms))
}

fn owned_or(o: Option<String>, d: &str) -> (r: String)
    ensures
        r@ == or_default(opt_str(o), d@),
{
    match o {
        Some(x) => x,
        None => d.to_owned(),
    }
}

/// Builds the record of a stream.
pub fn emit_h2_stream(s: H2Stream, now_ms: u64) -> (r: HttpTraceMsg)
    ensures
        r@ == h2_record(s, now_ms),
{
    let ghost g = s;
    let fallback = if s.tls {
        "https"
    } else {
        "http"
    };
    proof {
        reveal_strlit("https");
        reveal_strlit("http");
        reveal_strlit("GET");
        reveal_strlit("/");
        reveal_strlit("");
        reveal_strlit("://");
        reveal_strlit("HTTP/2");
    }
    let mut url = owned_or(s.req_scheme, fallback);
    push_str(&mut url, "://");
    let authority = owned_or(s.req_authority, "");
    push_str(&mut url, authority.as_str());
    let path = owned_or(s.req_path, "/");
    push_str(&mut url, path.as_str());
    let status_code = match s.resp_status {
        Some(c) => c,
        None => 0,
    };
    let r = HttpTraceMsg {
        method: owned_or(s.req_method, "GET"),
        url,
        status_code,
        request_headers: s.req_headers,
        response_headers: s.resp_headers,
        request_body_b64: body_b64(s.req_body.as_slice()),
        response_body_b64: body_b64(s.resp_body.as_slice()),
        duration_ms: elapsed_ms(s.started_ms, now_ms),
        timestamp_ms: s.timestamp_ms,
        dest_addr: None,
        protocol_version: "HTTP/2".to_owned(),
    };
    proof {
        assert(r.url@ =~= h2_url(g@));
        assert(r.method@ == or_default(opt_str(g.req_method), str_get()));
        assert(r.protocol_version@ =~= str_h2());
        assert(r@ =~= h2_record(g, now_ms));
    }
    r
}

/// The records of `v`'s streams, in order.
pub fn h2_stream_records(v: Vec<(u32, H2Stream)>, now_ms: u64) -> (r: Vec<HttpTraceMsg>)
    ensures
        msgs_view(r@) == h2_records(v@, now_ms),
{
    let ghost orig = v@;
    let mut src = v;
    let mut out: Vec<HttpTraceMsg> = Vec::new();
    let ghost mut i: int = 0;
    while src.len() > 0
        invariant
            0 <= i <= orig.len(),
            src@ == orig.subrange(i, orig.len() as int),
            msgs_view(out@) == h2_records(orig.take(i), now_ms),
        decreases src@.len(),
    {
        let e = src.remove(0);
        let ghost before = out@;
        out.push(emit_h2_stream(e.1, now_ms));
        proof {
            assert(orig[i] == e);
            assert(orig.take(i + 1) =~= orig.take(i).push(e));
            assert(h2_records(orig.take(i + 1), now_ms) =~= h2_records(orig.take(i), now_ms).push(
                h2_record(e.1, now_ms),
            ));
            assert(msgs_view(out@) =~= msgs_view(before).push(out@[i]@));
            assert(msgs_view(out@) =~= h2_records(orig.take(i + 1), now_ms));
            i = i + 1;
            assert(src@ =~= orig.subrange(i, orig.len() as int));
        }
    }
    proof {
        assert(orig.take(i) =~= orig);
    }
    out
}

/// At teardown, every stream with a response status is reported, in the
/// order first seen; streams without one are dropped.
pub fn h2_teardown_records(h2: H2ConnState, now_ms: u64) -> (r: Vec<HttpTraceMsg>)
    ensures
        msgs_view(r@) == h2_records(select(h2.streams@, false, true), now_ms),
{
    let (with_status, _) = split_done(h2.streams, false);
    h2_stream_records(with_status, now_ms)
}

} // verus!
