use phantom::dispatch::{process_incoming, process_outgoing, process_teardown, ConnMap, Emitted, FdState};
use phantom::guard::HookGuard;
use phantom::http1::{looks_like_http_request, try_parse_request, try_parse_response_headers};
use phantom::wire::HttpTraceMsg;

fn http(v: Vec<Emitted>) -> Vec<HttpTraceMsg> {
    v.into_iter()
        .map(|e| match e {
            Emitted::Http(m) => m,
            Emitted::Mysql(_) => panic!("unexpected MySQL record"),
        })
        .collect()
}

fn header<'a>(hs: &'a [(String, String)], name: &str) -> Option<&'a str> {
    hs.iter().rev().find(|(k, _)| k == name).map(|(_, v)| v.as_str())
}

const REQ: &[u8] = b"GET /api/users HTTP/1.1\r\nHost: example.com\r\nAccept: */*\r\n\r\n";
const RESP: &[u8] = b"HTTP/1.1 200 OK\r\nContent-Length: 5\r\nContent-Type: text/plain\r\n\r\nhello";

#[test]
fn http1_round_trip_over_any_chunking() {
    // The first send must hold at least the method token and its space.
    for cut_req in [4usize, 5, 17, REQ.len() - 1, REQ.len()] {
        for cut_resp in [1usize, 10, RESP.len() - 5, RESP.len() - 1, RESP.len()] {
            let mut map = ConnMap::new();
            process_outgoing(&mut map, 7, &REQ[..cut_req], false, 100, 9000);
            if cut_req < REQ.len() {
                process_outgoing(&mut map, 7, &REQ[cut_req..], false, 100, 9000);
            }
            let mut out = http(process_incoming(&mut map, 7, &RESP[..cut_resp], 120, 0));
            if cut_resp < RESP.len() {
                assert!(out.is_empty());
                out = http(process_incoming(&mut map, 7, &RESP[cut_resp..], 120, 0));
            }
            assert_eq!(out.len(), 1);
            let t = &out[0];
            assert_eq!(t.method, "GET");
            assert_eq!(t.url, "http://example.com/api/users");
            assert_eq!(t.status_code, 200);
            assert_eq!(header(&t.request_headers, "host"), Some("example.com"));
            assert_eq!(header(&t.response_headers, "content-type"), Some("text/plain"));
            assert_eq!(t.response_body_b64.as_deref(), Some("aGVsbG8="));
            assert_eq!(t.request_body_b64, None);
            assert_eq!(t.duration_ms, 20);
            assert_eq!(t.timestamp_ms, 9000);
            assert_eq!(t.protocol_version, "HTTP/1.1");
            assert!(http(process_teardown(&mut map, 7, 200)).is_empty());
        }
    }
}

#[test]
fn http1_chunked_waits_for_teardown() {
    let mut map = ConnMap::new();
    process_outgoing(&mut map, 3, REQ, false, 0, 0);
    let head = b"HTTP/1.1 200 OK\r\nTransfer-Encoding: chunked\r\n\r\n";
    assert!(process_incoming(&mut map, 3, head, 0, 0).is_empty());
    assert!(process_incoming(&mut map, 3, b"5\r\nhello\r\n", 0, 0).is_empty());
    assert!(process_incoming(&mut map, 3, b"0\r\n\r\n", 0, 0).is_empty());
    let out = http(process_teardown(&mut map, 3, 0));
    assert_eq!(out.len(), 1);
    // "5\r\nhello\r\n0\r\n\r\n" in base64
    assert_eq!(out[0].response_body_b64.as_deref(), Some("NQ0KaGVsbG8NCjANCg0K"));
    assert!(process_teardown(&mut map, 3, 0).is_empty());
}

#[test]
fn http1_pipelined_requests_emit_in_order() {
    let mut map = ConnMap::new();
    process_outgoing(&mut map, 5, b"GET /one HTTP/1.1\r\nHost: h\r\n\r\n", false, 0, 0);
    let a = http(process_incoming(&mut map, 5, b"HTTP/1.1 200 OK\r\nContent-Length: 1\r\n\r\na", 0, 0));
    process_outgoing(&mut map, 5, b"POST /two HTTP/1.1\r\nHost: h\r\nContent-Length: 3\r\n\r\nxyz", false, 0, 0);
    let b = http(process_incoming(&mut map, 5, b"HTTP/1.1 201 Created\r\nContent-Length: 0\r\n\r\n", 0, 0));
    assert_eq!(a.len(), 1);
    assert_eq!(b.len(), 1);
    assert_eq!(a[0].url, "http://h/one");
    assert_eq!(b[0].method, "POST");
    assert_eq!(b[0].url, "http://h/two");
    assert_eq!(b[0].status_code, 201);
    assert_eq!(b[0].request_body_b64.as_deref(), Some("eHl6"));
}

#[test]
fn http1_large_request_body_is_capped() {
    let mut map = ConnMap::new();
    let head = format!("POST /up HTTP/1.1\r\nHost: h\r\nContent-Length: {}\r\n\r\n", 10 * 1024 * 1024);
    let mut first = head.into_bytes();
    first.extend(vec![b'a'; 100 * 1024]);
    process_outgoing(&mut map, 9, &first, false, 0, 0);
    let out = http(process_incoming(&mut map, 9, b"HTTP/1.1 204 No Content\r\nContent-Length: 0\r\n\r\n", 0, 0));
    assert_eq!(out.len(), 1);
    assert_eq!(out[0].status_code, 204);
    assert_eq!(header(&out[0].request_headers, "content-length"), Some("10485760"));
    // 16384 bytes of base64 without padding: 16384 / 3 rounded up, times 4.
    assert_eq!(out[0].request_body_b64.as_ref().unwrap().len(), 21848);
}

#[test]
fn http1_tls_request_becomes_https() {
    let mut map = ConnMap::new();
    process_outgoing(&mut map, 0x7f00_0000_1000, REQ, true, 0, 0);
    let out = http(process_incoming(&mut map, 0x7f00_0000_1000, RESP, 0, 0));
    assert_eq!(out[0].url, "https://example.com/api/users");
}

#[test]
fn http1_absolute_target_is_kept() {
    let r = try_parse_request(b"GET http://proxy.example/x HTTP/1.1\r\nHost: other\r\n\r\n", 0, 0).unwrap();
    assert_eq!(r.url, "http://proxy.example/x");
    assert!(try_parse_request(b"GET /x HTTP/1.1\r\nHost: a", 0, 0).is_none());
}

#[test]
fn http1_response_head_parses_lower_case_headers() {
    let m = try_parse_response_headers(b"HTTP/1.1 404 Not Found\r\nX-Thing: V\r\nContent-Length: 12\r\n\r\n").unwrap();
    assert_eq!(m.status_code, 404);
    assert_eq!(m.content_length, Some(12));
    assert_eq!(header(&m.headers, "x-thing"), Some("V"));
    let c = try_parse_response_headers(b"HTTP/1.1 200 OK\r\nContent-Length: 3\r\nTransfer-Encoding: gzip, Chunked\r\n\r\n").unwrap();
    assert_eq!(c.content_length, None);
    assert!(try_parse_response_headers(b"HTTP/1.1 200 OK\r\n").is_none());
}

#[test]
fn http_method_tokens_are_recognised() {
    for m in ["GET ", "POST ", "PUT ", "DELETE ", "PATCH ", "HEAD ", "OPTIONS ", "TRACE ", "CONNECT "] {
        assert!(looks_like_http_request(m.as_bytes()));
    }
    assert!(!looks_like_http_request(b"GET/"));
    assert!(!looks_like_http_request(b"get /"));
    assert!(!looks_like_http_request(b""));
}

#[test]
fn request_split_inside_method_token_is_not_tracked() {
    let mut map = ConnMap::new();
    process_outgoing(&mut map, 8, &REQ[..2], false, 0, 0);
    process_outgoing(&mut map, 8, &REQ[2..], false, 0, 0);
    assert!(process_incoming(&mut map, 8, RESP, 0, 0).is_empty());
}

#[test]
fn unknown_bytes_on_untracked_connection_are_dropped() {
    let mut map = ConnMap::new();
    process_outgoing(&mut map, 1, b"\x16\x03\x01hello", false, 0, 0);
    assert!(map.conns.is_empty());
    assert!(process_incoming(&mut map, 1, b"data", 0, 0).is_empty());
    assert!(process_teardown(&mut map, 1, 0).is_empty());
}

#[test]
fn teardown_before_response_head_emits_nothing() {
    let mut map = ConnMap::new();
    process_outgoing(&mut map, 2, REQ, false, 0, 0);
    process_incoming(&mut map, 2, b"HTTP/1.1 200", 0, 0);
    assert!(matches!(map.conns.get(&2), Some(FdState::CollectingResponse { .. })));
    assert!(process_teardown(&mut map, 2, 0).is_empty());
}

#[test]
fn nested_interception_is_observed_once() {
    // A TLS write whose library calls the plain send underneath.
    let mut guard = HookGuard::new();
    let mut map = ConnMap::new();
    let ssl_key = 0x5555_0000_0000usize;
    let fd = 11usize;
    if guard.try_enter() {
        process_outgoing(&mut map, ssl_key, REQ, true, 0, 0);
        // the inner send, reached while the TLS write is being processed
        if guard.try_enter() {
            process_outgoing(&mut map, fd, REQ, false, 0, 0);
            guard.leave();
        }
        guard.leave();
    }
    let mut records = Vec::new();
    for key in [ssl_key, fd] {
        if guard.try_enter() {
            records.extend(http(process_incoming(&mut map, key, RESP, 0, 0)));
            guard.leave();
        }
    }
    assert_eq!(records.len(), 1);
    assert_eq!(records[0].url, "https://example.com/api/users");
}
