//! HTTP/1.x reassembly: request and response heads, bodies delimited by
//! Content-Length, and the record of a finished exchange.
use vstd::prelude::*;
use crate::bytes::copy_range;
use crate::text::{
    contains, has_prefix, lossy_of, lower_of, occurs_in, parse_usize, push_str, str_eq,
    str_starts_with, str_tail, to_lower, usize_parse_of, utf8_lossy,
};
use crate::wire::{body_b64, body_spec, elapsed, elapsed_ms, opt_str, pairs_view, HttpMsgView, HttpTraceMsg};

verus! {

/// What httparse makes of a request head at the start of `buf`: the head's
/// length, method, request target, and raw headers in order.
pub uninterp spec fn request_head_of(buf: Seq<u8>) -> Option<(usize, Seq<char>, Seq<char>, Seq<(Seq<char>, Seq<u8>)>)>;

/// What httparse makes of a response head at the start of `buf`: the head's
/// length, status code, and raw headers in order.
pub uninterp spec fn response_head_of(buf: Seq<u8>) -> Option<(usize, u16, Seq<(Seq<char>, Seq<u8>)>)>;

pub open spec fn raw_view(v: Seq<(String, Vec<u8>)>) -> Seq<(Seq<char>, Seq<u8>)> {
    v.map_values(|h: (String, Vec<u8>)| (h.0@, h.1@))
}

pub open spec fn req_head_view(r: Option<(usize, String, String, Vec<(String, Vec<u8>)>)>) -> Option<(usize, Seq<char>, Seq<char>, Seq<(Seq<char>, Seq<u8>)>)> {
    match r {
        Some((n, m, p, h)) => Some((n, m@, p@, raw_view(h@))),
        None => None,
    }
}

pub open spec fn resp_head_view(r: Option<(usize, u16, Vec<(String, Vec<u8>)>)>) -> Option<(usize, u16, Seq<(Seq<char>, Seq<u8>)>)> {
    match r {
        Some((n, c, h)) => Some((n, c, raw_view(h@))),
        None => None,
    }
}

/// Relies on `httparse::Request::parse` with room for 64 headers: a complete
/// head gives the offset where the body starts; a partial or invalid head
/// gives none.
#[verifier::external_body]
fn parse_request_head(buf: &[u8]) -> (r: Option<(usize, String, String, Vec<(String, Vec<u8>)>)>)
    ensures
        req_head_view(r) == request_head_of(buf@),
        r matches Some(h) ==> h.0 <= buf@.len(),
{
    let mut storage = [httparse::EMPTY_HEADER; 64];
    let mut req = httparse::Request::new(&mut storage);
    let Ok(httparse::Status::Complete(n)) = req.parse(buf) else { return None };
    let mut hs = Vec::new();
    for h in req.headers.iter() {
        hs.push((h.name.to_string(), h.value.to_vec()));
    }
    Some((n, req.method?.to_string(), req.path?.to_string(), hs))
}

/// Relies on `httparse::Response::parse` with room for 64 headers: a
/// complete head gives the offset where the body starts; a partial or invalid
/// head gives none.
#[verifier::external_body]
fn parse_response_head(buf: &[u8]) -> (r: Option<(usize, u16, Vec<(String, Vec<u8>)>)>)
    ensures
        resp_head_view(r) == response_head_of(buf@),
        r matches Some(h) ==> h.0 <= buf@.len(),
{
    let mut storage = [httparse::EMPTY_HEADER; 64];
    let mut resp = httparse::Response::new(&mut storage);
    let Ok(httparse::Status::Complete(n)) = resp.parse(buf) else { return None };
    let mut hs = Vec::new();
    for h in resp.headers.iter() {
        hs.push((h.name.to_string(), h.value.to_vec()));
    }
    Some((n, resp.code?, hs))
}

pub open spec fn s_host() -> Seq<char> {
    seq!['h', 'o', 's', 't']
}

pub open spec fn s_content_length() -> Seq<char> {
    seq!['c', 'o', 'n', 't', 'e', 'n', 't', '-', 'l', 'e', 'n', 'g', 't', 'h']
}

pub open spec fn s_transfer_encoding() -> Seq<char> {
    seq!['t', 'r', 'a', 'n', 's', 'f', 'e', 'r', '-', 'e', 'n', 'c', 'o', 'd', 'i', 'n', 'g']
}

pub open spec fn s_chunked() -> Seq<char> {
    seq!['c', 'h', 'u', 'n', 'k', 'e', 'd']
}

pub open spec fn s_http_prefix() -> Seq<char> {
    seq!['h', 't', 't', 'p', ':', '/', '/']
}

pub open spec fn s_https_prefix() -> Seq<char> {
    seq!['h', 't', 't', 'p', 's', ':', '/', '/']
}

pub open spec fn s_http11() -> Seq<char> {
    seq!['H', 'T', 'T', 'P', '/', '1', '.', '1']
}

/// Raw headers with lower-cased names and lossily decoded values.
pub open spec fn lower_headers(hs: Seq<(Seq<char>, Seq<u8>)>) -> Seq<(Seq<char>, Seq<char>)> {
    hs.map_values(|h: (Seq<char>, Seq<u8>)| (lower_of(h.0), lossy_of(h.1)))
}

/// The value of the last header named `key`.
pub open spec fn last_value(hs: Seq<(Seq<char>, Seq<char>)>, key: Seq<char>) -> Option<Seq<char>>
    decreases hs.len(),
{
    if hs.len() == 0 {
        None
    } else if hs.last().0 == key {
        Some(hs.last().1)
    } else {
        last_value(hs.drop_last(), key)
    }
}

/// Some header `transfer-encoding` names `chunked`.
pub open spec fn any_chunked(hs: Seq<(Seq<char>, Seq<char>)>) -> bool {
    exists|j: int|
        0 <= j < hs.len() && #[trigger] hs[j].0 == s_transfer_encoding() && occurs_in(
            s_chunked(),
            lower_of(hs[j].1),
        )
}

/// A request's body length: the last Content-Length, zero when absent or no
/// number.
pub open spec fn request_content_length(hs: Seq<(Seq<char>, Seq<char>)>) -> usize {
    match last_value(hs, s_content_length()) {
        Some(v) => match usize_parse_of(v) {
            Some(n) => n,
            None => 0,
        },
        None => 0,
    }
}

/// An absolute target is kept; otherwise `http://` + Host + target.
pub open spec fn request_url(path: Seq<char>, hs: Seq<(Seq<char>, Seq<char>)>) -> Seq<char> {
    if has_prefix(path, s_http_prefix()) || has_prefix(path, s_https_prefix()) {
        path
    } else {
        s_http_prefix() + match last_value(hs, s_host()) {
            Some(h) => h,
            None => Seq::empty(),
        } + path
    }
}

/// A parsed request.
pub struct ReqInfo {
    pub method: String,
    pub url: String,
    pub headers: Vec<(String, String)>,
    pub body: Vec<u8>,
    pub started_ms: u64,
    pub timestamp_ms: u64,
}

pub struct ReqInfoView {
    pub method: Seq<char>,
    pub url: Seq<char>,
    pub headers: Seq<(Seq<char>, Seq<char>)>,
    pub body: Seq<u8>,
    pub started_ms: u64,
    pub timestamp_ms: u64,
}

impl View for ReqInfo {
    type V = ReqInfoView;

    open spec fn view(&self) -> ReqInfoView {
        ReqInfoView {
            method: self.method@,
            url: self.url@,
            headers: pairs_view(self.headers@),
            body: self.body@,
            started_ms: self.started_ms,
            timestamp_ms: self.timestamp_ms,
        }
    }
}

/// The request whose head opens `buf`, with as much of its body as is
/// already there.
pub open spec fn request_spec(buf: Seq<u8>, now_ms: u64, wall_ms: u64) -> Option<ReqInfoView> {
    match request_head_of(buf) {
        None => None,
        Some((n, m, path, raw)) => {
            let hs = lower_headers(raw);
            let want = n + request_content_length(hs);
            let end = if want <= buf.len() {
                want
            } else {
                buf.len() as int
            };
            Some(
                ReqInfoView {
                    method: m,
                    url: request_url(path, hs),
                    headers: hs,
                    body: if n <= end {
                        buf.subrange(n as int, end)
                    } else {
                        Seq::empty()
                    },
                    started_ms: now_ms,
                    timestamp_ms: wall_ms,
                },
            )
        },
    }
}

pub open spec fn opt_req(r: Option<ReqInfo>) -> Option<ReqInfoView> {
    match r {
        Some(x) => Some(x@),
        None => None,
    }
}

fn lower_all(raw: &Vec<(String, Vec<u8>)>) -> (r: Vec<(String, String)>)
    ensures
        pairs_view(r@) == lower_headers(raw_view(raw@)),
{
    let mut out: Vec<(String, String)> = Vec::new();
    let mut i: usize = 0;
    while i < raw.len()
        invariant
            i <= raw@.len(),
            pairs_view(out@) == lower_headers(raw_view(raw@).take(i as int)),
        decreases raw@.len() - i,
    {
        let (n, v) = &raw[i];
        let pair = (to_lower(n.as_str()), utf8_lossy(v.as_slice()));
        let ghost before = out@;
        out.push(pair);
        proof {
            assert(raw_view(raw@).take(i + 1) =~= raw_view(raw@).take(i as int).push((n@, v@)));
            assert(pairs_view(out@) =~= pairs_view(before).push((lower_of(n@), lossy_of(v@))));
            assert(lower_headers(raw_view(raw@).take(i + 1)) =~= lower_headers(
                raw_view(raw@).take(i as int),
            ).push((lower_of(n@), lossy_of(v@))));
        }
        i = i + 1;
    }
    proof {
        assert(raw_view(raw@).take(raw@.len() as int) =~= raw_view(raw@));
    }
    out
}

/// The value of the last header named `key`.
pub fn find_last(hs: &Vec<(String, String)>, key: &str) -> (r: Option<String>)
    ensures
        opt_str(r) == last_value(pairs_view(hs@), key@),
{
    let mut i: usize = hs.len();
    proof {
        assert(pairs_view(hs@).take(i as int) =~= pairs_view(hs@));
    }
    while i > 0
        invariant
            i <= hs@.len(),
            last_value(pairs_view(hs@), key@) == last_value(pairs_view(hs@).take(i as int), key@),
        decreases i,
    {
        proof {
            assert(pairs_view(hs@).take(i as int).drop_last() =~= pairs_view(hs@).take(i - 1));
        }
        if str_eq(hs[i - 1].0.as_str(), key) {
            return Some(hs[i - 1].1.clone());
        }
        i = i - 1;
    }
    None
}

fn chunked_in(hs: &Vec<(String, String)>) -> (r: bool)
    ensures
        r == any_chunked(pairs_view(hs@)),
{
    let te = "transfer-encoding";
    let ch = "chunked";
    proof {
        reveal_strlit("transfer-encoding");
        reveal_strlit("chunked");
        assert(te@ =~= s_transfer_encoding());
        assert(ch@ =~= s_chunked());
    }
    let mut i: usize = 0;
    while i < hs.len()
        invariant
            te@ == s_transfer_encoding(),
            ch@ == s_chunked(),
            i <= hs@.len(),
            forall|j: int|
                0 <= j < i ==> !(#[trigger] pairs_view(hs@)[j].0 == s_transfer_encoding() && occurs_in(
                    s_chunked(),
                    lower_of(pairs_view(hs@)[j].1),
                )),
        decreases hs@.len() - i,
    {
        let (n, v) = &hs[i];
        if str_eq(n.as_str(), te) {
            let low = to_lower(v.as_str());
            if contains(low.as_str(), ch) {
                proof {
                    assert(pairs_view(hs@)[i as int].0 == s_transfer_encoding());
                }
                return true;
            }
        }
        i = i + 1;
    }
    false
}

/// Parses the request head that opens `buf`. The URL is the absolute target,
/// or `http://` + Host + target; the body is what of Content-Length bytes is
/// already buffered.
pub fn try_parse_request(buf: &[u8], now_ms: u64, wall_ms: u64) -> (r: Option<ReqInfo>)
    ensures
        opt_req(r) == request_spec(buf@, now_ms, wall_ms),
{
    let (n, method, path, raw) = match parse_request_head(buf) {
        None => {
            return None;
        },
        Some(h) => h,
    };
    let k_host = "host";
    let k_cl = "content-length";
    let p_http = "http://";
    let p_https = "https://";
    proof {
        reveal_strlit("host");
        reveal_strlit("content-length");
        reveal_strlit("http://");
        reveal_strlit("https://");
        assert(k_host@ =~= s_host());
        assert(k_cl@ =~= s_content_length());
        assert(p_http@ =~= s_http_prefix());
        assert(p_https@ =~= s_https_prefix());
    }
    let headers = lower_all(&raw);
    let host = find_last(&headers, k_host);
    let cl: usize = match find_last(&headers, k_cl) {
        Some(v) => match parse_usize(v.as_str()) {
            Some(x) => x,
            None => 0,
        },
        None => 0,
    };
    let url = if str_starts_with(path.as_str(), p_http) || str_starts_with(path.as_str(), p_https) {
        path
    } else {
        let mut u = p_http.to_owned();
        match &host {
            Some(h) => push_str(&mut u, h.as_str()),
            None => {},
        }
        push_str(&mut u, path.as_str());
        proof {
            assert(u@ =~= request_url(path@, pairs_view(headers@)));
        }
        u
    };
    let end = if cl <= buf.len() - n {
        n + cl
    } else {
        buf.len()
    };
    let body = copy_range(buf, n, end);
    let r = ReqInfo { method, url, headers, body, started_ms: now_ms, timestamp_ms: wall_ms };
    proof {
        assert(r@ =~= request_spec(buf@, now_ms, wall_ms)->0);
    }
    Some(r)
}

/// A parsed response head.
pub struct RespMeta {
    pub status_code: u16,
    pub headers: Vec<(String, String)>,
    /// None when absent, no number, or the body is chunked.
    pub content_length: Option<usize>,
    pub headers_end: usize,
}

pub open spec fn response_spec(buf: Seq<u8>) -> Option<(u16, Seq<(Seq<char>, Seq<char>)>, Option<usize>, usize)> {
    match response_head_of(buf) {
        None => None,
        Some((n, code, raw)) => {
            let hs = lower_headers(raw);
            let cl = if any_chunked(hs) {
                None
            } else {
                match last_value(hs, s_content_length()) {
                    Some(v) => usize_parse_of(v),
                    None => None,
                }
            };
            Some((code, hs, cl, n))
        },
    }
}

pub open spec fn meta_view(r: Option<RespMeta>) -> Option<(u16, Seq<(Seq<char>, Seq<char>)>, Option<usize>, usize)> {
    match r {
        Some(m) => Some((m.status_code, pairs_view(m.headers@), m.content_length, m.headers_end)),
        None => None,
    }
}

/// Parses the response head that opens `buf`. A chunked body has no known
/// length.
pub fn try_parse_response_headers(buf: &[u8]) -> (r: Option<RespMeta>)
    ensures
        meta_view(r) == response_spec(buf@),
        r matches Some(m) ==> m.headers_end <= buf@.len(),
{
    let (n, code, raw) = match parse_response_head(buf) {
        None => {
            return None;
        },
        Some(h) => h,
    };
    let k_cl = "content-length";
    proof {
        reveal_strlit("content-length");
        assert(k_cl@ =~= s_content_length());
    }
    let headers = lower_all(&raw);
    let chunked = chunked_in(&headers);
    let content_length = if chunked {
        None
    } else {
        match find_last(&headers, k_cl) {
            Some(v) => parse_usize(v.as_str()),
            None => None,
        }
    };
    Some(RespMeta { status_code: code, headers, content_length, headers_end: n })
}

pub open spec fn http1_url(url: Seq<char>, tls: bool) -> Seq<char> {
    if tls && has_prefix(url, s_http_prefix()) {
        s_https_prefix() + url.subrange(7, url.len() as int)
    } else {
        url
    }
}

/// The record of an HTTP/1.x exchange; a request seen inside TLS has its
/// `http://` URL turned to `https://`.
pub open spec fn http1_record(
    req: ReqInfoView,
    status: u16,
    resp_headers: Seq<(Seq<char>, Seq<char>)>,
    resp_body: Seq<u8>,
    now_ms: u64,
    tls: bool,
) -> HttpMsgView {
    HttpMsgView {
        method: req.method,
        url: http1_url(req.url, tls),
        status_code: status,
        request_headers: req.headers,
        response_headers: resp_headers,
        request_body_b64: body_spec(req.body),
        response_body_b64: body_spec(resp_body),
        duration_ms: elapsed(req.started_ms, now_ms),
        timestamp_ms: req.timestamp_ms,
        dest_addr: None,
        protocol_version: s_http11(),
    }
}

/// Builds the record of an HTTP/1.x exchange.
pub fn do_emit(
    req: ReqInfo,
    status_code: u16,
    resp_headers: Vec<(String, String)>,
    resp_body: &[u8],
    now_ms: u64,
    tls: bool,
) -> (r: HttpTraceMsg)
    ensures
        r@ == http1_record(req@, status_code, pairs_view(resp_headers@), resp_body@, now_ms, tls),
{
    let p_http = "http://";
    let p_https = "https://";
    let version = "HTTP/1.1";
    proof {
        reveal_strlit("http://");
        reveal_strlit("https://");
        reveal_strlit("HTTP/1.1");
        assert(p_http@ =~= s_http_prefix());
        assert(p_https@ =~= s_https_prefix());
        assert(version@ =~= s_http11());
    }
    let ghost rv = req@;
    let url = if tls && str_starts_with(req.url.as_str(), p_http) {
        let mut u = p_https.to_owned();
        let rest = str_tail(req.url.as_str(), 7);
        push_str(&mut u, rest.as_str());
        u
    } else {
        req.url
    };
    let r = HttpTraceMsg {
        method: req.method,
        url,
        status_code,
        request_headers: req.headers,
        response_headers: resp_headers,
        request_body_b64: body_b64(req.body.as_slice()),
        response_body_b64: body_b64(resp_body),
        duration_ms: elapsed_ms(req.started_ms, now_ms),
        timestamp_ms: req.timestamp_ms,
        dest_addr: None,
        protocol_version: version.to_owned(),
    };
    proof {
        assert(r.url@ =~= http1_url(rv.url, tls));
        assert(r.protocol_version@ =~= s_http11());
        assert(r@ =~= http1_record(rv, status_code, pairs_view(resp_headers@), resp_body@, now_ms, tls));
    }
    r
}

const METHODS_COUNT: usize = 9;

/// The nine method tokens, each followed by a space.
pub open spec fn method_token(i: int) -> Seq<u8> {
    if i == 0 {
        seq![71u8, 69, 84, 32]
    } else if i == 1 {
        seq![80u8, 79, 83, 84, 32]
    } else if i == 2 {
        seq![80u8, 85, 84, 32]
    } else if i == 3 {
        seq![68u8, 69, 76, 69, 84, 69, 32]
    } else if i == 4 {
        seq![80u8, 65, 84, 67, 72, 32]
    } else if i == 5 {
        seq![72u8, 69, 65, 68, 32]
    } else if i == 6 {
        seq![79u8, 80, 84, 73, 79, 78, 83, 32]
    } else if i == 7 {
        seq![84u8, 82, 65, 67, 69, 32]
    } else {
        seq![67u8, 79, 78, 78, 69, 67, 84, 32]
    }
}

/// `data` opens with a method token and a space.
pub open spec fn is_request_start(data: Seq<u8>) -> bool {
    exists|i: int| 0 <= i < 9 && #[trigger] method_token(i).len() <= data.len() && data.take(method_token(i).len() as int) == method_token(i)
}

fn method_bytes(i: usize) -> (r: Vec<u8>)
    requires
        i < 9,
    ensures
        r@ == method_token(i as int),
{
    let r: Vec<u8> = if i == 0 {
        vec![71u8, 69, 84, 32]
    } else if i == 1 {
        vec![80u8, 79, 83, 84, 32]
    } else if i == 2 {
        vec![80u8, 85, 84, 32]
    } else if i == 3 {
        vec![68u8, 69, 76, 69, 84, 69, 32]
    } else if i == 4 {
        vec![80u8, 65, 84, 67, 72, 32]
    } else if i == 5 {
        vec![72u8, 69, 65, 68, 32]
    } else if i == 6 {
        vec![79u8, 80, 84, 73, 79, 78, 83, 32]
    } else if i == 7 {
        vec![84u8, 82, 65, 67, 69, 32]
    } else {
        vec![67u8, 79, 78, 78, 69, 67, 84, 32]
    };
    proof {
        assert(r@ =~= method_token(i as int));
    }
    r
}

/// Whether `data` opens with one of the nine HTTP method tokens and a space.
pub fn looks_like_http_request(data: &[u8]) -> (r: bool)
    ensures
        r == is_request_start(data@),
{
    let mut i: usize = 0;
    while i < METHODS_COUNT
        invariant
            i <= 9,
            forall|j: int| 0 <= j < i ==> !(#[trigger] method_token(j).len() <= data@.len() && data@.take(method_token(j).len() as int) == method_token(j)),
        decreases 9 - i,
    {
        let m = method_bytes(i);
        if crate::bytes::starts_with(data, m.as_slice()) {
            return true;
        }
        i = i + 1;
    }
    false
}

} // verus!
