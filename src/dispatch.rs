//! The connection table: which reassembler owns each connection, and how
//! observed bytes, connects and teardowns move it along. Finished records are
//! handed back to the caller, who sends them once the table is released.
use vstd::prelude::*;
use std::collections::HashMap;
use crate::bytes::{append_capped, capped_append, copy_range, MAX_BUF};
use crate::h2::{
    drain_completed_h2_streams, frames_rest, frames_walk, h2_records, h2_records_v,
    h2_stream_records, h2_teardown_records, lemma_records_view, lemma_select_view, preface_skipped,
    preface_spec, process_h2_recv_frames, process_h2_send_frames, select, select_v,
    starts_with_preface, streams_view, fresh_half, H2ConnState,
};
use crate::http1::{
    do_emit, http1_record, is_request_start, looks_like_http_request, request_spec,
    response_spec, try_parse_request, try_parse_response_headers, ReqInfo, ReqInfoView,
};
use crate::mysql::{
    mysql_teardown_msg, opt_msg, process_mysql_incoming, process_mysql_outgoing, recv_drain,
    send_drain, MysqlConnState, MysqlMsgView, MysqlTraceMsg,
};
use crate::wire::{msgs_view, pairs_view, HttpMsgView, HttpTraceMsg};

verus! {

broadcast use vstd::std_specs::hash::group_hash_axioms;

/// What one connection is doing.
pub enum FdState {
    /// Request bytes gathered; the request head is not complete yet.
    CollectingRequest { buf: Vec<u8> },
    /// Request parsed; response bytes gathered. The status, headers and
    /// head length are set together once the response head parses.
    CollectingResponse {
        req: ReqInfo,
        buf: Vec<u8>,
        tls: bool,
        status_code: Option<u16>,
        resp_headers: Option<Vec<(String, String)>>,
        content_length: Option<usize>,
        headers_end: Option<usize>,
    },
    /// The connection speaks HTTP/2.
    Http2(H2ConnState),
    /// The connection speaks the MySQL protocol.
    MysqlConnection(MysqlConnState),
}

impl FdState {
    pub open spec fn wf(&self) -> bool {
        match self {
            FdState::CollectingRequest { buf } => buf@.len() <= MAX_BUF,
            FdState::CollectingResponse { buf, status_code, resp_headers, headers_end, .. } => {
                &&& buf@.len() <= MAX_BUF
                &&& status_code is Some == headers_end is Some
                &&& resp_headers is Some == headers_end is Some
                &&& headers_end matches Some(he) ==> he <= buf@.len()
            },
            FdState::Http2(h) => h.wf(),
            FdState::MysqlConnection(_) => true,
        }
    }
}

/// A record ready to send.
pub enum Emitted {
    Http(HttpTraceMsg),
    Mysql(MysqlTraceMsg),
}

pub enum EmittedView {
    Http(HttpMsgView),
    Mysql(MysqlMsgView),
}

impl View for Emitted {
    type V = EmittedView;

    open spec fn view(&self) -> EmittedView {
        match self {
            Emitted::Http(m) => EmittedView::Http(m@),
            Emitted::Mysql(m) => EmittedView::Mysql(m@),
        }
    }
}

pub open spec fn emitted_view(v: Seq<Emitted>) -> Seq<EmittedView> {
    v.map_values(|e: Emitted| e@)
}

pub open spec fn http_views(v: Seq<HttpMsgView>) -> Seq<EmittedView> {
    v.map_values(|m: HttpMsgView| EmittedView::Http(m))
}

/// Connection states keyed by connection id: a descriptor for a plain
/// socket, a session address for a TLS session.
pub struct ConnMap {
    pub conns: HashMap<usize, FdState>,
}

/// A parsed request waiting for its response.
pub open spec fn awaiting_response(s: FdState, rv: ReqInfoView, tls: bool) -> bool {
    match s {
        FdState::CollectingResponse { req, buf, tls: t, status_code, resp_headers, content_length, headers_end } => {
            &&& req@ == rv
            &&& buf@.len() == 0
            &&& t == tls
            &&& status_code is None
            &&& resp_headers is None
            &&& content_length is None
            &&& headers_end is None
        },
        _ => false,
    }
}

/// Request bytes `b` gathered: a parsed request when they hold a complete
/// head, else still collecting.
pub open spec fn after_request_bytes(s: FdState, b: Seq<u8>, tls: bool, now_ms: u64, wall_ms: u64) -> bool {
    match request_spec(b, now_ms, wall_ms) {
        Some(rv) => awaiting_response(s, rv, tls),
        None => s matches FdState::CollectingRequest { buf } && buf@ == b,
    }
}

/// The bytes of a new HTTP/2 connection's request side once the preface is
/// skipped and complete frames are consumed.
pub open spec fn h2_send_rest(b: Seq<u8>) -> Seq<u8> {
    frames_rest(
        if b.len() >= 24 && b.take(24) == preface_spec() {
            b.subrange(24, b.len() as int)
        } else {
            b
        },
    )
}

pub open spec fn lookup(m: Map<usize, FdState>, k: usize) -> Option<FdState> {
    if m.contains_key(k) {
        Some(m[k])
    } else {
        None
    }
}

pub open spec fn fresh_mysql(s: FdState) -> bool {
    match s {
        FdState::MysqlConnection(m) => {
            &&& m.recv_buf@.len() == 0
            &&& m.send_buf@.len() == 0
            &&& m.query_state is Idle
            &&& m.handshake == crate::mysql::HandshakePhase::WaitingGreeting
        },
        _ => false,
    }
}

/// `s` is MySQL connection `m` after client bytes `data`.
pub open spec fn mysql_sent(s: FdState, m: MysqlConnState, data: Seq<u8>, now_ms: u64, wall_ms: u64) -> bool {
    match s {
        FdState::MysqlConnection(m2) => {
            &&& (m2.query_state@, m2.send_buf@) == send_drain(
                m.handshake,
                m.query_state@,
                capped_append(m.send_buf@, data, MAX_BUF as nat),
                now_ms,
                wall_ms,
            )
            &&& m2.handshake == m.handshake
            &&& m2.recv_buf@ == m.recv_buf@
            &&& m2.info() == m.info()
        },
        _ => false,
    }
}

/// `s` is HTTP/2 connection `h` after request-side bytes `data`: the frames
/// were walked, the response side left as it was.
pub open spec fn h2_sent(s: FdState, h: H2ConnState, data: Seq<u8>, now_ms: u64, wall_ms: u64) -> bool {
    match s {
        FdState::Http2(h2) => {
            let b = preface_skipped(capped_append(h.send.buf@, data, MAX_BUF as nat));
            &&& h2.send.buf@ == frames_rest(b)
            &&& h2.tls == h.tls
            &&& h2.recv.buf@ == h.recv.buf@
            &&& h2.recv.state() == h.recv.state()
            &&& frames_walk(h.send.state(), streams_view(h.streams@), b, true, h.tls, now_ms, wall_ms)
                == (h2.send.state(), streams_view(h2.streams@))
        },
        _ => false,
    }
}

/// `s` is a new HTTP/2 connection opened by bytes `data`.
pub open spec fn h2_opened(s: FdState, data: Seq<u8>, tls: bool, now_ms: u64, wall_ms: u64) -> bool {
    match s {
        FdState::Http2(h2) => {
            let b = preface_skipped(capped_append(Seq::empty(), data, MAX_BUF as nat));
            &&& h2.send.buf@ == frames_rest(b)
            &&& h2.tls == tls
            &&& h2.recv.buf@.len() == 0
            &&& h2.recv.state() == fresh_half()
            &&& frames_walk(fresh_half(), Seq::empty(), b, true, tls, now_ms, wall_ms)
                == (h2.send.state(), streams_view(h2.streams@))
        },
        _ => false,
    }
}

impl ConnMap {
    pub open spec fn wf(&self) -> bool {
        forall|k: usize| #[trigger] self.conns@.contains_key(k) ==> self.conns@[k].wf()
    }

    pub fn new() -> (r: ConnMap)
        ensures
            r.wf(),
            r.conns@.len() == 0,
    {
        ConnMap { conns: HashMap::new() }
    }

    fn take(&mut self, key: usize) -> (r: Option<FdState>)
        requires
            old(self).wf(),
        ensures
            final(self).wf(),
            final(self).conns@ == old(self).conns@.remove(key),
            r == (if old(self).conns@.contains_key(key) {
                Some(old(self).conns@[key])
            } else {
                None
            }),
            r matches Some(s) ==> s.wf(),
    {
        let r = self.conns.remove(&key);
        proof {
            assert forall|k: usize| #[trigger] self.conns@.contains_key(k) implies self.conns@[k].wf() by {
                assert(old(self).conns@.contains_key(k));
            }
        }
        r
    }

    fn put(&mut self, key: usize, s: FdState)
        requires
            old(self).wf(),
            s.wf(),
        ensures
            final(self).wf(),
            final(self).conns@ == old(self).conns@.insert(key, s),
    {
        self.conns.insert(key, s);
        proof {
            assert forall|k: usize| #[trigger] self.conns@.contains_key(k) implies self.conns@[k].wf() by {
                if k != key {
                    assert(old(self).conns@.contains_key(k));
                }
            }
        }
    }
}

fn request_state(b: Vec<u8>, tls: bool, now_ms: u64, wall_ms: u64) -> (r: FdState)
    requires
        b@.len() <= MAX_BUF,
    ensures
        r.wf(),
        after_request_bytes(r, b@, tls, now_ms, wall_ms),
{
    match try_parse_request(b.as_slice(), now_ms, wall_ms) {
        Some(req) => FdState::CollectingResponse {
            req,
            buf: Vec::new(),
            tls,
            status_code: None,
            resp_headers: None,
            content_length: None,
            headers_end: None,
        },
        None => FdState::CollectingRequest { buf: b },
    }
}

/// A connect to the MySQL port binds the connection to a fresh MySQL state;
/// any other connect changes nothing.
pub fn process_connect(map: &mut ConnMap, key: usize, port: Option<u16>, mysql_port: u16, dest: Option<String>)
    requires
        old(map).wf(),
    ensures
        final(map).wf(),
        port == Some(mysql_port) ==> final(map).conns@.remove(key) == old(map).conns@.remove(key)
            && final(map).conns@.contains_key(key) && fresh_mysql(final(map).conns@[key]),
        port != Some(mysql_port) ==> final(map).conns@ == old(map).conns@,
{
    if port == Some(mysql_port) {
        let m = MysqlConnState::new(dest);
        map.put(key, FdState::MysqlConnection(m));
        proof {
            assert(final(map).conns@.remove(key) =~= old(map).conns@.remove(key));
        }
    }
}

/// Routes bytes the application sent. A bound MySQL or HTTP/2 connection
/// takes them; otherwise the client preface starts HTTP/2, a method token
/// starts a fresh HTTP/1 request (dropping earlier state), a request still
/// being collected grows, and anything else is dropped.
pub fn process_outgoing(map: &mut ConnMap, key: usize, data: &[u8], tls: bool, now_ms: u64, wall_ms: u64)
    requires
        old(map).wf(),
    ensures
        final(map).wf(),
        final(map).conns@.remove(key) == old(map).conns@.remove(key),
        match lookup(old(map).conns@, key) {
            Some(FdState::MysqlConnection(m)) => final(map).conns@.contains_key(key) && mysql_sent(
                final(map).conns@[key],
                m,
                data@,
                now_ms,
                wall_ms,
            ),
            Some(FdState::Http2(h)) => final(map).conns@.contains_key(key) && h2_sent(
                final(map).conns@[key],
                h,
                data@,
                now_ms,
                wall_ms,
            ),
            other => if data@.len() >= 24 && data@.take(24) == preface_spec() {
                final(map).conns@.contains_key(key) && h2_opened(final(map).conns@[key], data@, tls, now_ms, wall_ms)
            } else if is_request_start(data@) {
                final(map).conns@.contains_key(key) && after_request_bytes(
                    final(map).conns@[key],
                    capped_append(Seq::empty(), data@, MAX_BUF as nat),
                    tls,
                    now_ms,
                    wall_ms,
                )
            } else {
                match other {
                    Some(FdState::CollectingRequest { buf }) => final(map).conns@.contains_key(key)
                        && after_request_bytes(
                        final(map).conns@[key],
                        capped_append(buf@, data@, MAX_BUF as nat),
                        tls,
                        now_ms,
                        wall_ms,
                    ),
                    _ => final(map).conns@ == old(map).conns@,
                }
            },
        },
{
    let cur = map.take(key);
    match cur {
        Some(FdState::MysqlConnection(m)) => {
            let mut m = m;
            process_mysql_outgoing(&mut m, data, now_ms, wall_ms);
            map.put(key, FdState::MysqlConnection(m));
            proof {
                assert(final(map).conns@.remove(key) =~= old(map).conns@.remove(key));
            }
        },
        Some(FdState::Http2(h)) => {
            let mut h = h;
            let ghost h0 = h;
            append_capped(&mut h.send.buf, data, MAX_BUF);
            process_h2_send_frames(&mut h, now_ms, wall_ms);
            proof {
                assert(frames_walk(h0.send.state(), streams_view(h0.streams@), preface_skipped(capped_append(h0.send.buf@, data@, MAX_BUF as nat)), true, h0.tls, now_ms, wall_ms)
                    == (h.send.state(), streams_view(h.streams@)));
                assert(h2_sent(FdState::Http2(h), h0, data@, now_ms, wall_ms));
            }
            map.put(key, FdState::Http2(h));
            proof {
                assert(final(map).conns@.remove(key) =~= old(map).conns@.remove(key));
            }
        },
        other => {
            if starts_with_preface(data) {
                let mut h = H2ConnState::new(tls);
                append_capped(&mut h.send.buf, data, MAX_BUF);
                let ghost h1 = h;
                process_h2_send_frames(&mut h, now_ms, wall_ms);
                proof {
                    assert(h1.send.state() == fresh_half());
                    assert(streams_view(h1.streams@) =~= Seq::empty());
                    assert(h1.send.buf@ == capped_append(Seq::empty(), data@, MAX_BUF as nat));
                    assert(frames_walk(fresh_half(), Seq::empty(), preface_skipped(capped_append(Seq::empty(), data@, MAX_BUF as nat)), true, tls, now_ms, wall_ms)
                        == (h.send.state(), streams_view(h.streams@)));
                    assert(h2_opened(FdState::Http2(h), data@, tls, now_ms, wall_ms));
                }
                map.put(key, FdState::Http2(h));
                proof {
                    assert(final(map).conns@.remove(key) =~= old(map).conns@.remove(key));
                }
            } else if looks_like_http_request(data) {
                let mut b: Vec<u8> = Vec::new();
                append_capped(&mut b, data, MAX_BUF);
                proof {
                    crate::bytes::lemma_capped_len(Seq::empty(), data@, MAX_BUF as nat);
                }
                let s = request_state(b, tls, now_ms, wall_ms);
                map.put(key, s);
                proof {
                    assert(final(map).conns@.remove(key) =~= old(map).conns@.remove(key));
                }
            } else {
                match other {
                    Some(FdState::CollectingRequest { buf }) => {
                        let mut b = buf;
                        proof {
                            crate::bytes::lemma_capped_len(b@, data@, MAX_BUF as nat);
                        }
                        append_capped(&mut b, data, MAX_BUF);
                        let s = request_state(b, tls, now_ms, wall_ms);
                        map.put(key, s);
                        proof {
                            assert(final(map).conns@.remove(key) =~= old(map).conns@.remove(key));
                        }
                    },
                    Some(s) => {
                        map.put(key, s);
                        proof {
                            assert(final(map).conns@ =~= old(map).conns@);
                        }
                    },
                    None => {
                        proof {
                            assert(final(map).conns@ =~= old(map).conns@);
                        }
                    },
                }
            }
        },
    }
}

} // verus!

verus! {

pub open spec fn opt_pairs(o: Option<Vec<(String, String)>>) -> Option<Seq<(Seq<char>, Seq<char>)>> {
    match o {
        Some(v) => Some(pairs_view(v@)),
        None => None,
    }
}

/// Status, headers, body length and head length of a response once its
/// bytes are `b`: kept once known, else taken from the head if it parses.
pub open spec fn head_after(
    sc: Option<u16>,
    rh: Option<Seq<(Seq<char>, Seq<char>)>>,
    cl: Option<usize>,
    he: Option<usize>,
    b: Seq<u8>,
) -> (Option<u16>, Option<Seq<(Seq<char>, Seq<char>)>>, Option<usize>, Option<usize>) {
    if he is Some {
        (sc, rh, cl, he)
    } else {
        match response_spec(b) {
            Some((c, hs, l, n)) => (Some(c), Some(hs), l, Some(n)),
            None => (sc, rh, cl, he),
        }
    }
}

/// The body is complete: a known length, all of it buffered.
pub open spec fn body_complete(cl: Option<usize>, he: Option<usize>, len: nat) -> bool {
    cl is Some && he is Some && len >= he->0 + cl->0
}

pub open spec fn collecting_response(
    s: FdState,
    rv: ReqInfoView,
    b: Seq<u8>,
    tls: bool,
    head: (Option<u16>, Option<Seq<(Seq<char>, Seq<char>)>>, Option<usize>, Option<usize>),
) -> bool {
    match s {
        FdState::CollectingResponse { req, buf, tls: t, status_code, resp_headers, content_length, headers_end } => {
            &&& req@ == rv
            &&& buf@ == b
            &&& t == tls
            &&& (status_code, opt_pairs(resp_headers), content_length, headers_end) == head
        },
        _ => false,
    }
}

/// What server bytes `data` do to HTTP/1 state `s` and what they emit.
pub open spec fn http1_incoming(
    s: FdState,
    data: Seq<u8>,
    now_ms: u64,
    after: Option<FdState>,
    out: Seq<EmittedView>,
) -> bool {
    match s {
        FdState::CollectingResponse { req, buf, tls, status_code, resp_headers, content_length, headers_end } => {
            let b = capped_append(buf@, data, MAX_BUF as nat);
            let head = head_after(status_code, opt_pairs(resp_headers), content_length, headers_end, b);
            if body_complete(head.2, head.3, b.len()) {
                let he = head.3->0;
                &&& after is None
                &&& out == seq![
                    EmittedView::Http(
                        http1_record(
                            req@,
                            head.0->0,
                            head.1->0,
                            b.subrange(he as int, he + head.2->0),
                            now_ms,
                            tls,
                        ),
                    ),
                ]
            } else {
                &&& after matches Some(a)
                &&& collecting_response(after->0, req@, b, tls, head)
                &&& out.len() == 0
            }
        },
        _ => false,
    }
}

/// `s` is MySQL connection `m` after server bytes `data`; `out` is what
/// they complete.
pub open spec fn mysql_received(s: FdState, m: MysqlConnState, data: Seq<u8>, now_ms: u64, out: Seq<EmittedView>) -> bool {
    let d = recv_drain(
        m.handshake,
        m.query_state@,
        capped_append(m.recv_buf@, data, MAX_BUF as nat),
        now_ms,
        m.info(),
    );
    match s {
        FdState::MysqlConnection(m2) => {
            &&& (m2.handshake, m2.query_state@, m2.recv_buf@) == (d.0, d.1, d.2)
            &&& m2.send_buf@ == m.send_buf@
            &&& m2.info() == m.info()
            &&& out == match d.3 {
                Some(v) => seq![EmittedView::Mysql(v)],
                None => Seq::empty(),
            }
        },
        _ => false,
    }
}

/// Walking the response frames takes `h` to `h2`, the completed streams
/// leaving with their records `out`.
pub open spec fn h2_recv_outcome(
    h: H2ConnState,
    h2: H2ConnState,
    data: Seq<u8>,
    now_ms: u64,
    wall_ms: u64,
    out: Seq<EmittedView>,
) -> bool {
    let w = frames_walk(
        h.recv.state(),
        streams_view(h.streams@),
        capped_append(h.recv.buf@, data, MAX_BUF as nat),
        false,
        h.tls,
        now_ms,
        wall_ms,
    );
    &&& h2.recv.state() == w.0
    &&& streams_view(h2.streams@) == select_v(w.1, true, false)
    &&& out == http_views(h2_records_v(select_v(w.1, true, true), now_ms))
}

/// `s` is HTTP/2 connection `h` after response-side bytes `data`: the frames
/// were walked, and the streams
/// that completed were removed, their records, in order, being `out`.
pub open spec fn h2_received(s: FdState, h: H2ConnState, data: Seq<u8>, now_ms: u64, wall_ms: u64, out: Seq<EmittedView>) -> bool {
    match s {
        FdState::Http2(h2) => {
            &&& h2.recv.buf@ == frames_rest(capped_append(h.recv.buf@, data, MAX_BUF as nat))
            &&& h2.tls == h.tls
            &&& h2.send.buf@ == h.send.buf@
            &&& h2.send.state() == h.send.state()
            &&& h2_recv_outcome(h, h2, data, now_ms, wall_ms, out)
        },
        _ => false,
    }
}

fn wrap_http(v: Vec<HttpTraceMsg>) -> (r: Vec<Emitted>)
    ensures
        emitted_view(r@) == http_views(msgs_view(v@)),
{
    let ghost orig = v@;
    let mut src = v;
    let mut out: Vec<Emitted> = Vec::new();
    let ghost mut i: int = 0;
    while src.len() > 0
        invariant
            0 <= i <= orig.len(),
            src@ == orig.subrange(i, orig.len() as int),
            emitted_view(out@) == http_views(msgs_view(orig.take(i))),
        decreases src@.len(),
    {
        let m = src.remove(0);
        let ghost before = out@;
        out.push(Emitted::Http(m));
        proof {
            assert(orig[i] == m);
            assert(orig.take(i + 1) =~= orig.take(i).push(m));
            assert(emitted_view(out@) =~= emitted_view(before).push(EmittedView::Http(m@)));
            assert(http_views(msgs_view(orig.take(i + 1))) =~= http_views(msgs_view(orig.take(i))).push(
                EmittedView::Http(m@),
            ));
            i = i + 1;
            assert(src@ =~= orig.subrange(i, orig.len() as int));
        }
    }
    proof {
        assert(orig.take(i) =~= orig);
    }
    out
}

fn one_http(m: HttpTraceMsg) -> (r: Vec<Emitted>)
    ensures
        emitted_view(r@) == seq![EmittedView::Http(m@)],
{
    let mut out: Vec<Emitted> = Vec::new();
    out.push(Emitted::Http(m));
    proof {
        assert(emitted_view(out@) =~= seq![EmittedView::Http(m@)]);
    }
    out
}

fn opt_mysql(m: Option<MysqlTraceMsg>) -> (r: Vec<Emitted>)
    ensures
        emitted_view(r@) == match opt_msg(m) {
            Some(v) => seq![EmittedView::Mysql(v)],
            None => Seq::empty(),
        },
{
    let mut out: Vec<Emitted> = Vec::new();
    match m {
        Some(x) => {
            out.push(Emitted::Mysql(x));
        },
        None => {},
    }
    proof {
        assert(emitted_view(out@) =~= match opt_msg(m) {
            Some(v) => seq![EmittedView::Mysql(v)],
            None => Seq::empty(),
        });
    }
    out
}

/// Response-side bytes for an HTTP/2 connection, and the records of the
/// streams they complete.
fn h2_incoming(h: H2ConnState, data: &[u8], now_ms: u64, wall_ms: u64) -> (r: (H2ConnState, Vec<Emitted>))
    requires
        h.wf(),
    ensures
        r.0.wf(),
        h2_received(FdState::Http2(r.0), h, data@, now_ms, wall_ms, emitted_view(r.1@)),
{
    let mut h = h;
    let ghost h0 = h;
    append_capped(&mut h.recv.buf, data, MAX_BUF);
    process_h2_recv_frames(&mut h, now_ms, wall_ms);
    let ghost mid = h.streams@;
    let done = drain_completed_h2_streams(&mut h);
    let ghost done_v = done@;
    let recs = h2_stream_records(done, now_ms);
    let out = wrap_http(recs);
    proof {
        lemma_select_view(mid, true, true);
        lemma_select_view(mid, true, false);
        lemma_records_view(done_v, now_ms);
        assert(h2_recv_outcome(h0, h, data@, now_ms, wall_ms, emitted_view(out@)));
    }
    (h, out)
}

/// Routes bytes the application received and returns the records they
/// complete: a MySQL query round-trip, the HTTP/2 streams that finished (in
/// the order first seen), or an HTTP/1 response whose Content-Length bytes
/// are all in. Other connections are left alone.
pub fn process_incoming(map: &mut ConnMap, key: usize, data: &[u8], now_ms: u64, wall_ms: u64) -> (r: Vec<Emitted>)
    requires
        old(map).wf(),
    ensures
        final(map).wf(),
        final(map).conns@.remove(key) == old(map).conns@.remove(key),
        match lookup(old(map).conns@, key) {
            Some(FdState::MysqlConnection(m)) => final(map).conns@.contains_key(key) && mysql_received(
                final(map).conns@[key],
                m,
                data@,
                now_ms,
                emitted_view(r@),
            ),
            Some(FdState::Http2(h)) => final(map).conns@.contains_key(key) && h2_received(
                final(map).conns@[key],
                h,
                data@,
                now_ms,
                wall_ms,
                emitted_view(r@),
            ),
            Some(FdState::CollectingResponse { .. }) => http1_incoming(
                lookup(old(map).conns@, key)->0,
                data@,
                now_ms,
                lookup(final(map).conns@, key),
                emitted_view(r@),
            ),
            _ => final(map).conns@ == old(map).conns@ && r@.len() == 0,
        },
{
    let cur = map.take(key);
    match cur {
        Some(FdState::MysqlConnection(m)) => {
            let mut m = m;
            let msg = process_mysql_incoming(&mut m, data, now_ms);
            map.put(key, FdState::MysqlConnection(m));
            proof {
                assert(final(map).conns@.remove(key) =~= old(map).conns@.remove(key));
            }
            opt_mysql(msg)
        },
        Some(FdState::Http2(h)) => {
            let (h, out) = h2_incoming(h, data, now_ms, wall_ms);
            map.put(key, FdState::Http2(h));
            proof {
                assert(final(map).conns@.remove(key) =~= old(map).conns@.remove(key));
            }
            out
        },
        Some(FdState::CollectingResponse { req, buf, tls, status_code, resp_headers, content_length, headers_end }) => {
            let ghost old_state = lookup(old(map).conns@, key)->0;
            let mut buf = buf;
            proof {
                crate::bytes::lemma_capped_len(buf@, data@, MAX_BUF as nat);
            }
            append_capped(&mut buf, data, MAX_BUF);
            let mut sc = status_code;
            let mut rh = resp_headers;
            let mut cl = content_length;
            let mut he = headers_end;
            if he.is_none() {
                match try_parse_response_headers(buf.as_slice()) {
                    Some(meta) => {
                        sc = Some(meta.status_code);
                        rh = Some(meta.headers);
                        cl = meta.content_length;
                        he = Some(meta.headers_end);
                    },
                    None => {},
                }
            }
            let done = match (cl, he) {
                (Some(c), Some(e)) => e <= buf.len() && c <= buf.len() - e,
                _ => false,
            };
            if done {
                match (sc, rh, cl, he) {
                    (Some(s), Some(h), Some(c), Some(e)) => {
                        let body = copy_range(buf.as_slice(), e, e + c);
                        let msg = do_emit(req, s, h, body.as_slice(), now_ms, tls);
                        proof {
                            assert(lookup(final(map).conns@, key) is None);
                        }
                        one_http(msg)
                    },
                    _ => {
                        proof {
                            assert(false);
                        }
                        Vec::new()
                    },
                }
            } else {
                let s = FdState::CollectingResponse {
                    req,
                    buf,
                    tls,
                    status_code: sc,
                    resp_headers: rh,
                    content_length: cl,
                    headers_end: he,
                };
                map.put(key, s);
                proof {
                    assert(final(map).conns@.remove(key) =~= old(map).conns@.remove(key));
                }
                Vec::new()
            }
        },
        Some(s) => {
            map.put(key, s);
            proof {
                assert(final(map).conns@ =~= old(map).conns@);
            }
            Vec::new()
        },
        None => {
            proof {
                assert(final(map).conns@ =~= old(map).conns@);
            }
            Vec::new()
        },
    }
}

} // verus!

verus! {

/// What closing the connection in state `s` emits: an HTTP/1 response whose
/// head parsed, with the body buffered so far (up to a known length); each
/// HTTP/2 stream with a status; a MySQL query in flight; nothing otherwise.
pub open spec fn teardown_out(s: Option<FdState>, now_ms: u64) -> Seq<EmittedView> {
    match s {
        Some(FdState::CollectingResponse { req, buf, tls, status_code, resp_headers, content_length, headers_end }) => {
            match (status_code, resp_headers, headers_end) {
                (Some(sc), Some(rh), Some(he)) => {
                    let cl: int = match content_length {
                        Some(c) => c as int,
                        None => buf@.len() - he,
                    };
                    let end: int = if he + cl <= buf@.len() {
                        he + cl
                    } else {
                        buf@.len() as int
                    };
                    seq![
                        EmittedView::Http(
                            http1_record(req@, sc, pairs_view(rh@), buf@.subrange(he as int, end), now_ms, tls),
                        ),
                    ]
                },
                _ => Seq::empty(),
            }
        },
        Some(FdState::Http2(h)) => http_views(h2_records(select(h.streams@, false, true), now_ms)),
        Some(FdState::MysqlConnection(m)) => match crate::mysql::teardown_spec(m.query_state@, now_ms, m.info()) {
            Some(v) => seq![EmittedView::Mysql(v)],
            None => Seq::empty(),
        },
        _ => Seq::empty(),
    }
}

/// Forgets the connection and returns what its state still owes.
pub fn process_teardown(map: &mut ConnMap, key: usize, now_ms: u64) -> (r: Vec<Emitted>)
    requires
        old(map).wf(),
    ensures
        final(map).wf(),
        final(map).conns@ == old(map).conns@.remove(key),
        emitted_view(r@) == teardown_out(lookup(old(map).conns@, key), now_ms),
{
    let cur = map.take(key);
    match cur {
        Some(FdState::CollectingResponse { req, buf, tls, status_code, resp_headers, content_length, headers_end }) => {
            match (status_code, resp_headers, headers_end) {
                (Some(sc), Some(rh), Some(he)) => {
                    let cl: usize = match content_length {
                        Some(c) => c,
                        None => buf.len() - he,
                    };
                    let end = if cl <= buf.len() - he {
                        he + cl
                    } else {
                        buf.len()
                    };
                    let body = copy_range(buf.as_slice(), he, end);
                    one_http(do_emit(req, sc, rh, body.as_slice(), now_ms, tls))
                },
                _ => Vec::new(),
            }
        },
        Some(FdState::Http2(h)) => {
            let recs = h2_teardown_records(h, now_ms);
            wrap_http(recs)
        },
        Some(FdState::MysqlConnection(m)) => opt_mysql(mysql_teardown_msg(&m, now_ms)),
        _ => Vec::new(),
    }
}

} // verus!
