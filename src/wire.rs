//! The records sent to the collector, the caps on what they carry, and the
//! base64 text that carries bodies.
use vstd::prelude::*;
use crate::text::push_char;

verus! {

/// Most body bytes carried per record.
pub const MAX_BODY: usize = 16384;

/// Most bytes sent in one datagram.
pub const MAX_DATAGRAM: usize = 61440;

/// The base64 digit for a six-bit value.
pub open spec fn b64_digit(v: u8) -> char {
    if v < 26 {
        (65 + v) as char
    } else if v < 52 {
        (97 + (v - 26)) as char
    } else if v < 62 {
        (48 + (v - 52)) as char
    } else if v == 62 {
        '+'
    } else {
        '/'
    }
}

/// Standard padded base64 of `d`, three bytes to four digits.
pub open spec fn b64_spec(d: Seq<u8>) -> Seq<char>
    decreases d.len(),
{
    if d.len() == 0 {
        Seq::empty()
    } else if d.len() == 1 {
        seq![b64_digit(d[0] / 4), b64_digit(((d[0] % 4) * 16) as u8), '=', '=']
    } else if d.len() == 2 {
        seq![
            b64_digit(d[0] / 4),
            b64_digit(((d[0] % 4) * 16 + d[1] / 16) as u8),
            b64_digit(((d[1] % 16) * 4) as u8),
            '=',
        ]
    } else {
        seq![
            b64_digit(d[0] / 4),
            b64_digit(((d[0] % 4) * 16 + d[1] / 16) as u8),
            b64_digit(((d[1] % 16) * 4 + d[2] / 64) as u8),
            b64_digit(d[2] % 64),
        ] + b64_spec(d.subrange(3, d.len() as int))
    }
}

fn digit(v: u8) -> (c: char)
    requires
        v < 64,
    ensures
        c == b64_digit(v),
{
    if v < 26 {
        (65 + v) as char
    } else if v < 52 {
        (97 + (v - 26)) as char
    } else if v < 62 {
        (48 + (v - 52)) as char
    } else if v == 62 {
        '+'
    } else {
        '/'
    }
}

/// Encodes `data` as standard padded base64.
pub fn b64_encode(data: &[u8]) -> (r: String)
    ensures
        r@ == b64_spec(data@),
{
    let n = data.len();
    let mut out = String::new();
    let mut i: usize = 0;
    proof {
        assert(data@.subrange(0, n as int) =~= data@);
        assert(out@ + b64_spec(data@) =~= b64_spec(data@));
    }
    while i < n
        invariant
            n == data@.len(),
            i <= n,
            b64_spec(data@) == out@ + b64_spec(data@.subrange(i as int, n as int)),
        decreases n - i,
    {
        let ghost rest = data@.subrange(i as int, n as int);
        let b0 = data[i];
        push_char(&mut out, digit(b0 / 4));
        if n - i == 1 {
            push_char(&mut out, digit((b0 % 4) * 16));
            push_char(&mut out, '=');
            push_char(&mut out, '=');
            i = n;
            proof {
                assert(data@.subrange(n as int, n as int).len() == 0);
            }
        } else if n - i == 2 {
            let b1 = data[i + 1];
            push_char(&mut out, digit((b0 % 4) * 16 + b1 / 16));
            push_char(&mut out, digit((b1 % 16) * 4));
            push_char(&mut out, '=');
            i = n;
            proof {
                assert(data@.subrange(n as int, n as int).len() == 0);
            }
        } else {
            let b1 = data[i + 1];
            let b2 = data[i + 2];
            push_char(&mut out, digit((b0 % 4) * 16 + b1 / 16));
            push_char(&mut out, digit((b1 % 16) * 4 + b2 / 64));
            push_char(&mut out, digit(b2 % 64));
            i = i + 3;
            proof {
                assert(rest.subrange(3, rest.len() as int) =~= data@.subrange(i as int, n as int));
            }
        }
        proof {
            assert(out@ + b64_spec(data@.subrange(i as int, n as int)) =~= b64_spec(data@));
        }
    }
    proof {
        assert(data@.subrange(n as int, n as int).len() == 0);
        assert(out@ + Seq::<char>::empty() =~= out@);
    }
    out
}

/// The body a record carries: none for an empty body, else the base64 of at
/// most `MAX_BODY` leading bytes.
pub open spec fn body_spec(raw: Seq<u8>) -> Option<Seq<char>> {
    if raw.len() == 0 {
        None
    } else if raw.len() <= MAX_BODY {
        Some(b64_spec(raw))
    } else {
        Some(b64_spec(raw.take(MAX_BODY as int)))
    }
}

pub open spec fn opt_str(o: Option<String>) -> Option<Seq<char>> {
    match o {
        Some(s) => Some(s@),
        None => None,
    }
}

pub fn body_b64(raw: &[u8]) -> (r: Option<String>)
    ensures
        opt_str(r) == body_spec(raw@),
{
    if raw.len() == 0 {
        None
    } else if raw.len() <= MAX_BODY {
        Some(b64_encode(raw))
    } else {
        Some(b64_encode(vstd::slice::slice_subrange(raw, 0, MAX_BODY)))
    }
}

/// Serialised bytes go out only when they fit one datagram; larger ones are
/// dropped whole, never cut.
pub fn admit_datagram(data: Vec<u8>) -> (r: Option<Vec<u8>>)
    ensures
        r is Some <==> data@.len() <= MAX_DATAGRAM,
        r matches Some(d) ==> d@ == data@,
{
    if data.len() <= MAX_DATAGRAM {
        Some(data)
    } else {
        None
    }
}

pub open spec fn pairs_view(v: Seq<(String, String)>) -> Seq<(Seq<char>, Seq<char>)> {
    v.map_values(|p: (String, String)| (p.0@, p.1@))
}

/// A finished HTTP round-trip as the agent reports it.
pub struct HttpTraceMsg {
    pub method: String,
    pub url: String,
    pub status_code: u16,
    /// Header names and values in the order seen; a later name wins.
    pub request_headers: Vec<(String, String)>,
    pub response_headers: Vec<(String, String)>,
    pub request_body_b64: Option<String>,
    pub response_body_b64: Option<String>,
    pub duration_ms: u64,
    pub timestamp_ms: u64,
    pub dest_addr: Option<String>,
    pub protocol_version: String,
}

} // verus!

verus! {

pub struct HttpMsgView {
    pub method: Seq<char>,
    pub url: Seq<char>,
    pub status_code: u16,
    pub request_headers: Seq<(Seq<char>, Seq<char>)>,
    pub response_headers: Seq<(Seq<char>, Seq<char>)>,
    pub request_body_b64: Option<Seq<char>>,
    pub response_body_b64: Option<Seq<char>>,
    pub duration_ms: u64,
    pub timestamp_ms: u64,
    pub dest_addr: Option<Seq<char>>,
    pub protocol_version: Seq<char>,
}

impl View for HttpTraceMsg {
    type V = HttpMsgView;

    open spec fn view(&self) -> HttpMsgView {
        HttpMsgView {
            method: self.method@,
            url: self.url@,
            status_code: self.status_code,
            request_headers: pairs_view(self.request_headers@),
            response_headers: pairs_view(self.response_headers@),
            request_body_b64: opt_str(self.request_body_b64),
            response_body_b64: opt_str(self.response_body_b64),
            duration_ms: self.duration_ms,
            timestamp_ms: self.timestamp_ms,
            dest_addr: opt_str(self.dest_addr),
            protocol_version: self.protocol_version@,
        }
    }
}

pub open spec fn msgs_view(v: Seq<HttpTraceMsg>) -> Seq<HttpMsgView> {
    v.map_values(|m: HttpTraceMsg| m@)
}

/// Milliseconds from `started` to `now`, or zero if the clock went back.
pub open spec fn elapsed(started: u64, now: u64) -> u64 {
    if now >= started {
        (now - started) as u64
    } else {
        0
    }
}

pub fn elapsed_ms(started: u64, now: u64) -> (r: u64)
    ensures
        r == elapsed(started, now),
{
    if now >= started {
        now - started
    } else {
        0
    }
}

} // verus!
