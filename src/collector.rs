//! What the collector makes of the agent's messages: canonical HTTP and
//! MySQL trace records with fresh identifiers.
use vstd::prelude::*;
use base64::Engine as _;
use crate::text::str_eq;
use crate::trace::{
    opt_bytes, HttpMethod, HttpTrace, HttpTraceView, MysqlResponseKind, MysqlTrace, MysqlTraceView,
    ResponseView, SpanId, TraceId,
};
use crate::wire::{b64_spec, opt_str, pairs_view};

verus! {

/// What the standard base64 engine makes of `s`.
pub uninterp spec fn b64_decode_of(s: Seq<char>) -> Option<Seq<u8>>;

/// What `str::to_uppercase` makes of `s`.
pub uninterp spec fn upper_of(s: Seq<char>) -> Seq<char>;

/// Relies on the base64 crate's `STANDARD` engine: the result depends on the
/// text alone, and padded standard base64 of some bytes decodes to them.
#[verifier::external_body]
fn b64_decode(s: &str) -> (r: Option<Vec<u8>>)
    ensures
        opt_bytes(r) == b64_decode_of(s@),
        forall|d: Seq<u8>| b64_spec(d) == s@ ==> opt_bytes(r) == Some(d),
{
    base64::engine::general_purpose::STANDARD.decode(s).ok()
}

/// Relies on `str::to_uppercase`: the result depends on the text alone.
#[verifier::external_body]
fn to_upper(s: &str) -> (r: String)
    ensures
        r@ == upper_of(s@),
{
    s.to_uppercase()
}

/// Relies on `rand::random` for fresh identifiers: a draw from the thread's
/// generator, of which nothing is promised.
pub assume_specification<T>[ rand::random::<T> ]() -> (r: T)
    where
        rand::distributions::Standard: rand::distributions::Distribution<T>,
;

/// The name of each method.
pub open spec fn method_text(m: HttpMethod) -> Seq<char> {
    match m {
        HttpMethod::Get => seq!['G', 'E', 'T'],
        HttpMethod::Post => seq!['P', 'O', 'S', 'T'],
        HttpMethod::Put => seq!['P', 'U', 'T'],
        HttpMethod::Delete => seq!['D', 'E', 'L', 'E', 'T', 'E'],
        HttpMethod::Patch => seq!['P', 'A', 'T', 'C', 'H'],
        HttpMethod::Head => seq!['H', 'E', 'A', 'D'],
        HttpMethod::Options => seq!['O', 'P', 'T', 'I', 'O', 'N', 'S'],
        HttpMethod::Trace => seq!['T', 'R', 'A', 'C', 'E'],
        HttpMethod::Connect => seq!['C', 'O', 'N', 'N', 'E', 'C', 'T'],
    }
}

impl HttpMethod {
    /// The method's name in upper case.
    pub fn as_text(&self) -> (r: &'static str)
        ensures
            r@ == method_text(*self),
    {
        proof {
            reveal_strlit("GET");
            reveal_strlit("POST");
            reveal_strlit("PUT");
            reveal_strlit("DELETE");
            reveal_strlit("PATCH");
            reveal_strlit("HEAD");
            reveal_strlit("OPTIONS");
            reveal_strlit("TRACE");
            reveal_strlit("CONNECT");
        }
        match self {
            HttpMethod::Get => "GET",
            HttpMethod::Post => "POST",
            HttpMethod::Put => "PUT",
            HttpMethod::Delete => "DELETE",
            HttpMethod::Patch => "PATCH",
            HttpMethod::Head => "HEAD",
            HttpMethod::Options => "OPTIONS",
            HttpMethod::Trace => "TRACE",
            HttpMethod::Connect => "CONNECT",
        }
    }
}

/// The method whose name `u` is; GET for any other text.
pub open spec fn method_named(u: Seq<char>) -> HttpMethod {
    if u == method_text(HttpMethod::Post) {
        HttpMethod::Post
    } else if u == method_text(HttpMethod::Put) {
        HttpMethod::Put
    } else if u == method_text(HttpMethod::Delete) {
        HttpMethod::Delete
    } else if u == method_text(HttpMethod::Patch) {
        HttpMethod::Patch
    } else if u == method_text(HttpMethod::Head) {
        HttpMethod::Head
    } else if u == method_text(HttpMethod::Options) {
        HttpMethod::Options
    } else if u == method_text(HttpMethod::Trace) {
        HttpMethod::Trace
    } else if u == method_text(HttpMethod::Connect) {
        HttpMethod::Connect
    } else {
        HttpMethod::Get
    }
}

/// The method named by `s` in any case; GET for an unknown name.
pub fn parse_method(s: &str) -> (r: HttpMethod)
    ensures
        r == method_named(upper_of(s@)),
{
    let u = to_upper(s);
    let u = u.as_str();
    if str_eq(u, HttpMethod::Post.as_text()) {
        HttpMethod::Post
    } else if str_eq(u, HttpMethod::Put.as_text()) {
        HttpMethod::Put
    } else if str_eq(u, HttpMethod::Delete.as_text()) {
        HttpMethod::Delete
    } else if str_eq(u, HttpMethod::Patch.as_text()) {
        HttpMethod::Patch
    } else if str_eq(u, HttpMethod::Head.as_text()) {
        HttpMethod::Head
    } else if str_eq(u, HttpMethod::Options.as_text()) {
        HttpMethod::Options
    } else if str_eq(u, HttpMethod::Trace.as_text()) {
        HttpMethod::Trace
    } else if str_eq(u, HttpMethod::Connect.as_text()) {
        HttpMethod::Connect
    } else {
        HttpMethod::Get
    }
}

pub open spec fn decoded(o: Option<Seq<char>>) -> Option<Seq<u8>> {
    match o {
        Some(s) => b64_decode_of(s),
        None => None,
    }
}

/// A body carried as base64: absent, or not base64, gives no body.
pub fn decode_body(b64: Option<String>) -> (r: Option<Vec<u8>>)
    ensures
        opt_bytes(r) == decoded(opt_str(b64)),
{
    match b64 {
        Some(s) => b64_decode(s.as_str()),
        None => None,
    }
}

/// An HTTP trace message as the agent sends it.
pub struct AgentTrace {
    pub method: String,
    pub url: String,
    pub status_code: u16,
    pub request_headers: Vec<(String, String)>,
    pub response_headers: Vec<(String, String)>,
    pub request_body_b64: Option<String>,
    pub response_body_b64: Option<String>,
    pub duration_ms: u64,
    pub timestamp_ms: u64,
    pub dest_addr: Option<String>,
    pub protocol_version: Option<String>,
}

pub open spec fn s_http11() -> Seq<char> {
    seq!['H', 'T', 'T', 'P', '/', '1', '.', '1']
}

/// The canonical record of agent message `a` under the given identifiers.
pub open spec fn http_trace_spec(a: AgentTrace, span: Seq<u8>, trace: Seq<u8>) -> HttpTraceView {
    HttpTraceView {
        span_id: span,
        trace_id: trace,
        has_parent: false,
        method: method_named(upper_of(a.method@)),
        url: a.url@,
        request_headers: pairs_view(a.request_headers@),
        request_body: decoded(opt_str(a.request_body_b64)),
        status_code: a.status_code,
        response_headers: pairs_view(a.response_headers@),
        response_body: decoded(opt_str(a.response_body_b64)),
        timestamp_ms: a.timestamp_ms,
        duration_ms: a.duration_ms,
        source_addr: None,
        dest_addr: opt_str(a.dest_addr),
        protocol_version: match opt_str(a.protocol_version) {
            Some(v) => v,
            None => s_http11(),
        },
    }
}

/// Builds the canonical record of an agent message with the given ids.
pub fn http_trace_from_agent(a: AgentTrace, span_id: [u8; 8], trace_id: [u8; 16]) -> (r: HttpTrace)
    ensures
        r@ == http_trace_spec(a, span_id@, trace_id@),
{
    let version = "HTTP/1.1";
    proof {
        reveal_strlit("HTTP/1.1");
        assert(version@ =~= s_http11());
    }
    let method = parse_method(a.method.as_str());
    let protocol_version = match a.protocol_version {
        Some(v) => v,
        None => version.to_owned(),
    };
    HttpTrace {
        span_id: SpanId(span_id),
        trace_id: TraceId(trace_id),
        parent_span_id: None,
        method,
        url: a.url,
        request_headers: a.request_headers,
        request_body: decode_body(a.request_body_b64),
        status_code: a.status_code,
        response_headers: a.response_headers,
        response_body: decode_body(a.response_body_b64),
        timestamp_ms: a.timestamp_ms,
        duration_ms: a.duration_ms,
        source_addr: None,
        dest_addr: a.dest_addr,
        protocol_version,
    }
}

/// Builds the canonical record of an agent message under fresh random ids.
pub fn agent_trace_to_http_trace(a: AgentTrace) -> (r: HttpTrace)
    ensures
        exists|s: Seq<u8>, t: Seq<u8>| s.len() == 8 && t.len() == 16 && r@ == http_trace_spec(a, s, t),
{
    let span_id: [u8; 8] = rand::random();
    let trace_id: [u8; 16] = rand::random();
    let r = http_trace_from_agent(a, span_id, trace_id);
    proof {
        assert(span_id@.len() == 8 && trace_id@.len() == 16);
    }
    r
}

/// A MySQL trace message as the agent sends it.
pub struct AgentMysqlTrace {
    pub query: String,
    pub duration_ms: u64,
    pub timestamp_ms: u64,
    pub dest_addr: Option<String>,
    pub db_name: Option<String>,
    pub affected_rows: Option<u64>,
    pub last_insert_id: Option<u64>,
    pub warnings: Option<u16>,
    pub column_count: Option<u64>,
    pub row_count: Option<u64>,
    pub error_code: Option<u16>,
    pub sql_state: Option<String>,
    pub error_message: Option<String>,
}

pub open spec fn or_zero<T>(o: Option<T>, z: T) -> T {
    match o {
        Some(x) => x,
        None => z,
    }
}

/// The response kind: an error code means an ERR packet, else a column
/// count means a result set, else an OK packet; missing numbers are zero and
/// missing texts empty.
pub open spec fn response_spec(a: AgentMysqlTrace) -> ResponseView {
    if a.error_code is Some {
        ResponseView::ErrPacket {
            error_code: a.error_code->0,
            sql_state: or_zero(opt_str(a.sql_state), Seq::empty()),
            message: or_zero(opt_str(a.error_message), Seq::empty()),
        }
    } else if a.column_count is Some {
        ResponseView::ResultSet { column_count: a.column_count->0, row_count: or_zero(a.row_count, 0) }
    } else {
        ResponseView::OkPacket {
            affected_rows: or_zero(a.affected_rows, 0),
            last_insert_id: or_zero(a.last_insert_id, 0),
            warnings: or_zero(a.warnings, 0),
        }
    }
}

pub open spec fn mysql_trace_spec(a: AgentMysqlTrace, span: Seq<u8>, trace: Seq<u8>) -> MysqlTraceView {
    MysqlTraceView {
        span_id: span,
        trace_id: trace,
        has_parent: false,
        query: a.query@,
        response: response_spec(a),
        timestamp_ms: a.timestamp_ms,
        duration_ms: a.duration_ms,
        dest_addr: opt_str(a.dest_addr),
        db_name: opt_str(a.db_name),
    }
}

fn text_or_empty(o: Option<String>) -> (r: String)
    ensures
        r@ == or_zero(opt_str(o), Seq::empty()),
{
    match o {
        Some(s) => s,
        None => String::new(),
    }
}

/// Builds the canonical MySQL record of an agent message with the given ids.
pub fn mysql_trace_from_agent(a: AgentMysqlTrace, span_id: [u8; 8], trace_id: [u8; 16]) -> (r: MysqlTrace)
    ensures
        r@ == mysql_trace_spec(a, span_id@, trace_id@),
{
    let response = match a.error_code {
        Some(code) => MysqlResponseKind::ErrPacket {
            error_code: code,
            sql_state: text_or_empty(a.sql_state),
            message: text_or_empty(a.error_message),
        },
        None => match a.column_count {
            Some(c) => MysqlResponseKind::ResultSet {
                column_count: c,
                row_count: match a.row_count {
                    Some(n) => n,
                    None => 0,
                },
            },
            None => MysqlResponseKind::OkPacket {
                affected_rows: match a.affected_rows {
                    Some(n) => n,
                    None => 0,
                },
                last_insert_id: match a.last_insert_id {
                    Some(n) => n,
                    None => 0,
                },
                warnings: match a.warnings {
                    Some(n) => n,
                    None => 0,
                },
            },
        },
    };
    MysqlTrace {
        span_id: SpanId(span_id),
        trace_id: TraceId(trace_id),
        parent_span_id: None,
        query: a.query,
        response,
        timestamp_ms: a.timestamp_ms,
        duration_ms: a.duration_ms,
        dest_addr: a.dest_addr,
        db_name: a.db_name,
    }
}

/// Builds the canonical MySQL record of an agent message under fresh random
/// ids.
pub fn agent_mysql_trace_to_mysql_trace(a: AgentMysqlTrace) -> (r: MysqlTrace)
    ensures
        exists|s: Seq<u8>, t: Seq<u8>| s.len() == 8 && t.len() == 16 && r@ == mysql_trace_spec(a, s, t),
{
    let span_id: [u8; 8] = rand::random();
    let trace_id: [u8; 16] = rand::random();
    let r = mysql_trace_from_agent(a, span_id, trace_id);
    proof {
        assert(span_id@.len() == 8 && trace_id@.len() == 16);
    }
    r
}

} // verus!

verus! {

/// Which record an agent message carries.
#[derive(Clone, Copy, Debug, PartialEq, Eq, Structural)]
pub enum MessageKind {
    Http,
    Mysql,
}

pub open spec fn s_mysql() -> Seq<char> {
    seq!['m', 'y', 's', 'q', 'l']
}

/// A message whose `msg_type` is `mysql` carries a MySQL record; any other
/// value, or none, an HTTP record.
pub fn message_kind(msg_type: Option<&str>) -> (r: MessageKind)
    ensures
        r == (if msg_type matches Some(t) && t@ == s_mysql() {
            MessageKind::Mysql
        } else {
            MessageKind::Http
        }),
{
    let m = "mysql";
    proof {
        reveal_strlit("mysql");
        assert(m@ =~= s_mysql());
    }
    match msg_type {
        Some(t) => if str_eq(t, m) {
            MessageKind::Mysql
        } else {
            MessageKind::Http
        },
        None => MessageKind::Http,
    }
}

} // verus!
