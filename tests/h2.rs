use phantom::dispatch::{process_incoming, process_outgoing, process_teardown, ConnMap, Emitted};
use phantom::h2::{
    h2_data_range, h2_header_block_range, parse_h2_frame_header, H2Stream, apply_h2_request_headers,
    apply_h2_response_headers,
};
use phantom::wire::HttpTraceMsg;

const PREFACE: &[u8] = b"PRI * HTTP/2.0\r\n\r\nSM\r\n\r\n";

fn frame(kind: u8, flags: u8, sid: u32, payload: &[u8]) -> Vec<u8> {
    let n = payload.len();
    let mut v = vec![(n >> 16) as u8, (n >> 8) as u8, n as u8, kind, flags];
    v.extend_from_slice(&sid.to_be_bytes());
    v.extend_from_slice(payload);
    v
}

fn encode(enc: &mut hpack::Encoder, hs: &[(&str, &str)]) -> Vec<u8> {
    enc.encode(hs.iter().map(|(k, v)| (k.as_bytes(), v.as_bytes())))
}

fn http(v: Vec<Emitted>) -> Vec<HttpTraceMsg> {
    v.into_iter()
        .map(|e| match e {
            Emitted::Http(m) => m,
            Emitted::Mysql(_) => panic!("unexpected MySQL record"),
        })
        .collect()
}

const REQ_HEADERS: &[(&str, &str)] = &[(":method", "GET"), (":path", "/x"), (":scheme", "https"), (":authority", "h")];

#[test]
fn h2_single_stream() {
    let mut req_enc = hpack::Encoder::new();
    let mut resp_enc = hpack::Encoder::new();
    let mut map = ConnMap::new();
    let mut out = PREFACE.to_vec();
    out.extend(frame(0x4, 0, 0, &[]));
    out.extend(frame(0x1, 0x5, 1, &encode(&mut req_enc, REQ_HEADERS)));
    process_outgoing(&mut map, 40, &out, true, 10, 500);
    let resp = frame(0x1, 0x5, 1, &encode(&mut resp_enc, &[(":status", "200"), ("server", "s")]));
    let recs = http(process_incoming(&mut map, 40, &resp, 25, 0));
    assert_eq!(recs.len(), 1);
    assert_eq!(recs[0].url, "https://h/x");
    assert_eq!(recs[0].status_code, 200);
    assert_eq!(recs[0].method, "GET");
    assert_eq!(recs[0].protocol_version, "HTTP/2");
    assert_eq!(recs[0].duration_ms, 15);
    assert_eq!(recs[0].timestamp_ms, 500);
    assert_eq!(recs[0].response_headers, vec![("server".to_string(), "s".to_string())]);
    assert!(process_teardown(&mut map, 40, 30).is_empty());
}

#[test]
fn h2_padding_and_priority_decode_like_bare_headers() {
    let block = encode(&mut hpack::Encoder::new(), REQ_HEADERS);
    let mut payload = vec![4u8];
    payload.extend_from_slice(&[0, 0, 0, 3, 16]);
    payload.extend_from_slice(&block);
    payload.extend_from_slice(&[0, 0, 0, 0]);
    let (s, e) = h2_header_block_range(&payload, 0x8 | 0x20 | 0x4);
    assert_eq!(&payload[s..e], &block[..]);

    let mut map = ConnMap::new();
    let mut out = PREFACE.to_vec();
    out.extend(frame(0x1, 0x8 | 0x20 | 0x4 | 0x1, 3, &payload));
    process_outgoing(&mut map, 41, &out, false, 0, 0);
    let resp = frame(0x1, 0x5, 3, &encode(&mut hpack::Encoder::new(), &[(":status", "204")]));
    let recs = http(process_incoming(&mut map, 41, &resp, 0, 0));
    assert_eq!(recs.len(), 1);
    assert_eq!(recs[0].url, "https://h/x");
    assert_eq!(recs[0].status_code, 204);
}

#[test]
fn h2_continuation_decodes_whole_block() {
    let block = encode(&mut hpack::Encoder::new(), &[(":method", "POST"), (":path", "/upload"), (":authority", "api"), ("x-long", "abcdefghijklmnop")]);
    let (a, rest) = block.split_at(5);
    let (b, c) = rest.split_at(rest.len() / 2);
    let mut map = ConnMap::new();
    let mut out = PREFACE.to_vec();
    out.extend(frame(0x1, 0x0, 5, a));
    out.extend(frame(0x9, 0x0, 5, b));
    out.extend(frame(0x9, 0x4, 5, c));
    out.extend(frame(0x0, 0x1, 5, b"body"));
    process_outgoing(&mut map, 42, &out, false, 0, 0);
    let resp = frame(0x1, 0x5, 5, &encode(&mut hpack::Encoder::new(), &[(":status", "201")]));
    let recs = http(process_incoming(&mut map, 42, &resp, 0, 0));
    assert_eq!(recs.len(), 1);
    assert_eq!(recs[0].method, "POST");
    assert_eq!(recs[0].url, "http://api/upload");
    assert_eq!(recs[0].request_headers, vec![("x-long".to_string(), "abcdefghijklmnop".to_string())]);
    assert_eq!(recs[0].request_body_b64.as_deref(), Some("Ym9keQ=="));
}

#[test]
fn h2_concurrent_streams_emit_in_completion_order() {
    let mut req_enc = hpack::Encoder::new();
    let mut resp_enc = hpack::Encoder::new();
    let mut map = ConnMap::new();
    let mut out = PREFACE.to_vec();
    out.extend(frame(0x1, 0x5, 1, &encode(&mut req_enc, &[(":method", "GET"), (":path", "/slow"), (":authority", "h")])));
    out.extend(frame(0x1, 0x5, 3, &encode(&mut req_enc, &[(":method", "GET"), (":path", "/fast"), (":authority", "h")])));
    process_outgoing(&mut map, 43, &out, true, 0, 0);
    let mut resp = frame(0x1, 0x4, 1, &encode(&mut resp_enc, &[(":status", "200")]));
    resp.extend(frame(0x1, 0x4, 3, &encode(&mut resp_enc, &[(":status", "200")])));
    resp.extend(frame(0x0, 0x0, 1, b"slow-part"));
    resp.extend(frame(0x0, 0x1, 3, b"fast"));
    let first = http(process_incoming(&mut map, 43, &resp, 0, 0));
    assert_eq!(first.len(), 1);
    assert_eq!(first[0].url, "https://h/fast");
    assert_eq!(first[0].response_body_b64.as_deref(), Some("ZmFzdA=="));
    let second = http(process_incoming(&mut map, 43, &frame(0x0, 0x1, 1, b"!"), 0, 0));
    assert_eq!(second.len(), 1);
    assert_eq!(second[0].url, "https://h/slow");
    assert_eq!(second[0].response_body_b64.as_deref(), Some("c2xvdy1wYXJ0IQ=="));
}

#[test]
fn h2_teardown_emits_streams_with_status_only() {
    let mut req_enc = hpack::Encoder::new();
    let mut resp_enc = hpack::Encoder::new();
    let mut map = ConnMap::new();
    let mut out = PREFACE.to_vec();
    out.extend(frame(0x1, 0x5, 1, &encode(&mut req_enc, REQ_HEADERS)));
    out.extend(frame(0x1, 0x5, 3, &encode(&mut req_enc, REQ_HEADERS)));
    process_outgoing(&mut map, 44, &out, true, 0, 0);
    let resp = frame(0x1, 0x4, 1, &encode(&mut resp_enc, &[(":status", "200")]));
    assert!(process_incoming(&mut map, 44, &resp, 0, 0).is_empty());
    let recs = http(process_teardown(&mut map, 44, 0));
    assert_eq!(recs.len(), 1);
    assert_eq!(recs[0].status_code, 200);

    let mut map = ConnMap::new();
    let mut out = PREFACE.to_vec();
    out.extend(frame(0x1, 0x5, 1, &encode(&mut hpack::Encoder::new(), REQ_HEADERS)));
    process_outgoing(&mut map, 45, &out, true, 0, 0);
    assert!(process_teardown(&mut map, 45, 0).is_empty());
}

#[test]
fn h2_frame_header_fields() {
    assert_eq!(parse_h2_frame_header(&[0, 1, 2, 0x1, 0x5, 0x80, 0, 0, 7]), Some((258, 1, 5, 7)));
    assert_eq!(parse_h2_frame_header(&[0; 8]), None);
}

#[test]
fn h2_data_padding_edges() {
    assert_eq!(h2_data_range(&[], 0x8), (0, 0));
    assert_eq!(h2_data_range(&[2, b'a', b'b', 0, 0], 0x8), (1, 3));
    assert_eq!(h2_data_range(&[9, b'a'], 0x8), (1, 1));
    assert_eq!(h2_data_range(b"abc", 0x0), (0, 3));
    assert_eq!(h2_header_block_range(&[], 0x8), (0, 0));
    assert_eq!(h2_header_block_range(&[0, 1, 2], 0x20), (0, 0));
}

#[test]
fn h2_header_application() {
    let mut s = H2Stream::new(false, 0, 0);
    apply_h2_request_headers(&mut s, vec![
        (b":method".to_vec(), b"PUT".to_vec()),
        (b":protocol".to_vec(), b"ws".to_vec()),
        (b"accept".to_vec(), b"*/*".to_vec()),
    ]);
    assert_eq!(s.req_method.as_deref(), Some("PUT"));
    assert_eq!(s.req_headers, vec![("accept".to_string(), "*/*".to_string())]);
    apply_h2_response_headers(&mut s, vec![(b":status".to_vec(), b"abc".to_vec())]);
    assert_eq!(s.resp_status, None);
    apply_h2_response_headers(&mut s, vec![(b":status".to_vec(), b"503".to_vec())]);
    assert_eq!(s.resp_status, Some(503));
}

#[test]
fn h2_unterminated_size_update_counts_as_failed_decode() {
    let mut map = ConnMap::new();
    let mut out = PREFACE.to_vec();
    out.extend(frame(0x1, 0x5, 1, &[0x3f]));
    out.extend(frame(0x1, 0x5, 1, &[0x3f, 0xff, 0xff, 0xff, 0xff, 0xff]));
    process_outgoing(&mut map, 46, &out, false, 0, 0);
    let resp = frame(0x1, 0x5, 1, &encode(&mut hpack::Encoder::new(), &[(":status", "200")]));
    let recs = http(process_incoming(&mut map, 46, &resp, 0, 0));
    assert_eq!(recs.len(), 1);
    assert_eq!(recs[0].method, "GET");
    assert_eq!(recs[0].url, "http:///");
    assert!(recs[0].request_headers.is_empty());
}

#[test]
fn h2_size_update_that_ends_is_decoded() {
    let mut map = ConnMap::new();
    let mut block = vec![0x3f, 0xe1, 0x1f];
    block.extend(encode(&mut hpack::Encoder::new(), REQ_HEADERS));
    let mut out = PREFACE.to_vec();
    out.extend(frame(0x1, 0x5, 1, &block));
    process_outgoing(&mut map, 47, &out, true, 0, 0);
    let resp = frame(0x1, 0x5, 1, &encode(&mut hpack::Encoder::new(), &[(":status", "200")]));
    let recs = http(process_incoming(&mut map, 47, &resp, 0, 0));
    assert_eq!(recs[0].url, "https://h/x");
}
