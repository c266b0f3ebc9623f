//! The trace records the collector hands downstream.
use vstd::prelude::*;
use crate::wire::{opt_str, pairs_view};

verus! {

/// Identifier of a trace (128 bits).
#[derive(Clone, Debug, PartialEq, Eq, Hash)]
pub struct TraceId(pub [u8; 16]);

impl TraceId {
    pub fn as_bytes(&self) -> (r: &[u8; 16])
        ensures
            r@ == self.0@,
    {
        &self.0
    }
}

/// Identifier of a span within a trace (64 bits).
#[derive(Clone, Debug, PartialEq, Eq, Hash)]
pub struct SpanId(pub [u8; 8]);

impl SpanId {
    pub fn as_bytes(&self) -> (r: &[u8; 8])
        ensures
            r@ == self.0@,
    {
        &self.0
    }
}

#[derive(Clone, Copy, Debug, PartialEq, Eq, Structural)]
pub enum HttpMethod {
    Get,
    Post,
    Put,
    Delete,
    Patch,
    Head,
    Options,
    Trace,
    Connect,
}

/// A complete HTTP request-response pair with timing metadata. Times are
/// milliseconds: `timestamp_ms` since the Unix epoch, `duration_ms` elapsed.
#[derive(Clone, Debug)]
pub struct HttpTrace {
    pub span_id: SpanId,
    pub trace_id: TraceId,
    pub parent_span_id: Option<SpanId>,
    pub method: HttpMethod,
    pub url: String,
    /// Header names and values in order; a later name wins.
    pub request_headers: Vec<(String, String)>,
    pub request_body: Option<Vec<u8>>,
    pub status_code: u16,
    pub response_headers: Vec<(String, String)>,
    pub response_body: Option<Vec<u8>>,
    pub timestamp_ms: u64,
    pub duration_ms: u64,
    pub source_addr: Option<String>,
    pub dest_addr: Option<String>,
    pub protocol_version: String,
}

pub open spec fn opt_bytes(o: Option<Vec<u8>>) -> Option<Seq<u8>> {
    match o {
        Some(v) => Some(v@),
        None => None,
    }
}

pub struct HttpTraceView {
    pub span_id: Seq<u8>,
    pub trace_id: Seq<u8>,
    pub has_parent: bool,
    pub method: HttpMethod,
    pub url: Seq<char>,
    pub request_headers: Seq<(Seq<char>, Seq<char>)>,
    pub request_body: Option<Seq<u8>>,
    pub status_code: u16,
    pub response_headers: Seq<(Seq<char>, Seq<char>)>,
    pub response_body: Option<Seq<u8>>,
    pub timestamp_ms: u64,
    pub duration_ms: u64,
    pub source_addr: Option<Seq<char>>,
    pub dest_addr: Option<Seq<char>>,
    pub protocol_version: Seq<char>,
}

impl View for HttpTrace {
    type V = HttpTraceView;

    open spec fn view(&self) -> HttpTraceView {
        HttpTraceView {
            span_id: self.span_id.0@,
            trace_id: self.trace_id.0@,
            has_parent: self.parent_span_id is Some,
            method: self.method,
            url: self.url@,
            request_headers: pairs_view(self.request_headers@),
            request_body: opt_bytes(self.request_body),
            status_code: self.status_code,
            response_headers: pairs_view(self.response_headers@),
            response_body: opt_bytes(self.response_body),
            timestamp_ms: self.timestamp_ms,
            duration_ms: self.duration_ms,
            source_addr: opt_str(self.source_addr),
            dest_addr: opt_str(self.dest_addr),
            protocol_version: self.protocol_version@,
        }
    }
}

/// The outcome of a MySQL COM_QUERY command.
#[derive(Clone, Debug)]
pub enum MysqlResponseKind {
    ResultSet { column_count: u64, row_count: u64 },
    OkPacket { affected_rows: u64, last_insert_id: u64, warnings: u16 },
    ErrPacket { error_code: u16, sql_state: String, message: String },
}

pub enum ResponseView {
    ResultSet { column_count: u64, row_count: u64 },
    OkPacket { affected_rows: u64, last_insert_id: u64, warnings: u16 },
    ErrPacket { error_code: u16, sql_state: Seq<char>, message: Seq<char> },
}

impl View for MysqlResponseKind {
    type V = ResponseView;

    open spec fn view(&self) -> ResponseView {
        match self {
            MysqlResponseKind::ResultSet { column_count, row_count } => ResponseView::ResultSet {
                column_count: *column_count,
                row_count: *row_count,
            },
            MysqlResponseKind::OkPacket { affected_rows, last_insert_id, warnings } => ResponseView::OkPacket {
                affected_rows: *affected_rows,
                last_insert_id: *last_insert_id,
                warnings: *warnings,
            },
            MysqlResponseKind::ErrPacket { error_code, sql_state, message } => ResponseView::ErrPacket {
                error_code: *error_code,
                sql_state: sql_state@,
                message: message@,
            },
        }
    }
}

/// A complete MySQL COM_QUERY round-trip. Times are milliseconds.
#[derive(Clone, Debug)]
pub struct MysqlTrace {
    pub span_id: SpanId,
    pub trace_id: TraceId,
    pub parent_span_id: Option<SpanId>,
    pub query: String,
    pub response: MysqlResponseKind,
    pub timestamp_ms: u64,
    pub duration_ms: u64,
    pub dest_addr: Option<String>,
    pub db_name: Option<String>,
}

pub struct MysqlTraceView {
    pub span_id: Seq<u8>,
    pub trace_id: Seq<u8>,
    pub has_parent: bool,
    pub query: Seq<char>,
    pub response: ResponseView,
    pub timestamp_ms: u64,
    pub duration_ms: u64,
    pub dest_addr: Option<Seq<char>>,
    pub db_name: Option<Seq<char>>,
}

impl View for MysqlTrace {
    type V = MysqlTraceView;

    open spec fn view(&self) -> MysqlTraceView {
        MysqlTraceView {
            span_id: self.span_id.0@,
            trace_id: self.trace_id.0@,
            has_parent: self.parent_span_id is Some,
            query: self.query@,
            response: self.response@,
            timestamp_ms: self.timestamp_ms,
            duration_ms: self.duration_ms,
            dest_addr: opt_str(self.dest_addr),
            db_name: opt_str(self.db_name),
        }
    }
}

/// Failures of a capture backend.
#[derive(Debug)]
pub enum CaptureError {
    StartFailed(String),
    StopFailed(String),
    Other(String),
}

/// Failures of a trace store.
#[derive(Debug)]
pub enum StorageError {
    Open(String),
    Write(String),
    Read(String),
    Serialization(String),
}

} // verus!

verus! {

/// The lower-case hexadecimal digit for a value below 16.
pub open spec fn hex_digit(v: u8) -> char {
    if v < 10 {
        (48 + v) as char
    } else {
        (87 + v) as char
    }
}

/// Two lower-case hexadecimal digits per byte.
pub open spec fn hex_spec(b: Seq<u8>) -> Seq<char>
    decreases b.len(),
{
    if b.len() == 0 {
        Seq::empty()
    } else {
        hex_spec(b.drop_last()).push(hex_digit(b.last() / 16)).push(hex_digit(b.last() % 16))
    }
}

fn hex_char(v: u8) -> (c: char)
    requires
        v < 16,
    ensures
        c == hex_digit(v),
{
    if v < 10 {
        (48 + v) as char
    } else {
        (87 + v) as char
    }
}

/// The bytes as lower-case hexadecimal text.
pub fn to_hex(b: &[u8]) -> (r: String)
    ensures
        r@ == hex_spec(b@),
{
    let mut r = String::new();
    let mut i: usize = 0;
    while i < b.len()
        invariant
            i <= b@.len(),
            r@ == hex_spec(b@.take(i as int)),
        decreases b@.len() - i,
    {
        proof {
            assert(b@.take(i + 1).drop_last() =~= b@.take(i as int));
        }
        crate::text::push_char(&mut r, hex_char(b[i] / 16));
        crate::text::push_char(&mut r, hex_char(b[i] % 16));
        i = i + 1;
    }
    proof {
        assert(b@.take(i as int) =~= b@);
    }
    r
}

impl TraceId {
    /// The id as 32 lower-case hexadecimal digits.
    pub fn to_hex(&self) -> (r: String)
        ensures
            r@ == hex_spec(self.0@),
    {
        to_hex(self.as_bytes())
    }
}

impl SpanId {
    /// The id as 16 lower-case hexadecimal digits.
    pub fn to_hex(&self) -> (r: String)
        ensures
            r@ == hex_spec(self.0@),
    {
        to_hex(self.as_bytes())
    }
}

} // verus!

verus! {

/// Persistent storage of HTTP traces, indexed by span id, by time and by
/// trace id.
pub trait TraceStore {
    /// Stores a trace under its span id and in both indexes at once.
    fn insert(&self, trace: &HttpTrace) -> Result<(), StorageError>;

    fn get_by_span_id(&self, span_id: &SpanId) -> Result<Option<HttpTrace>, StorageError>;

    /// Newest first, skipping `offset`, at most `limit`.
    fn list_recent(&self, limit: usize, offset: usize) -> Result<Vec<HttpTrace>, StorageError>;

    /// Every span of a trace.
    fn get_by_trace_id(&self, trace_id: &TraceId) -> Result<Vec<HttpTrace>, StorageError>;

    /// Newest first, traces whose URL contains `pattern`, at most `limit`.
    fn search_by_url(&self, pattern: &str, limit: usize) -> Result<Vec<HttpTrace>, StorageError>;

    /// An estimate of the number of traces stored.
    fn count(&self) -> Result<u64, StorageError>;
}

/// Persistent storage of MySQL traces, indexed by span id and by time.
pub trait MysqlStore {
    fn insert(&self, trace: &MysqlTrace) -> Result<(), StorageError>;

    fn get_by_span_id(&self, span_id: &SpanId) -> Result<Option<MysqlTrace>, StorageError>;

    /// Newest first, skipping `offset`, at most `limit`.
    fn list_recent(&self, limit: usize, offset: usize) -> Result<Vec<MysqlTrace>, StorageError>;

    /// Newest first, traces whose query contains `pattern`, at most `limit`.
    fn search_by_query(&self, pattern: &str, limit: usize) -> Result<Vec<MysqlTrace>, StorageError>;

    /// An estimate of the number of traces stored.
    fn count(&self) -> Result<u64, StorageError>;
}

} // verus!
