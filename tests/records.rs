use phantom::collector::{
    agent_mysql_trace_to_mysql_trace, agent_trace_to_http_trace, decode_body, http_trace_from_agent,
    mysql_trace_from_agent, parse_method, AgentMysqlTrace, AgentTrace,
};
use phantom::dashboard::{format_time, truncate_str, truncate_url, ActiveTab, App, EventHandler, Pane};
use phantom::store::{encode_timestamp, time_key, trace_id_key};
use phantom::trace::{HttpMethod, HttpTrace, MysqlResponseKind, MysqlTrace, SpanId, TraceId};
use phantom::wire::{admit_datagram, b64_encode, body_b64, MAX_BODY, MAX_DATAGRAM};

fn agent(method: &str, url: &str) -> AgentTrace {
    AgentTrace {
        method: method.to_string(),
        url: url.to_string(),
        status_code: 200,
        request_headers: vec![("accept".to_string(), "*/*".to_string())],
        response_headers: vec![],
        request_body_b64: Some("aGVsbG8=".to_string()),
        response_body_b64: Some("%%%".to_string()),
        duration_ms: 12,
        timestamp_ms: 1_700_000_000_000,
        dest_addr: None,
        protocol_version: None,
    }
}

fn mysql_agent() -> AgentMysqlTrace {
    AgentMysqlTrace {
        query: "SELECT 1".to_string(),
        duration_ms: 4,
        timestamp_ms: 1_700_000_000_000,
        dest_addr: Some("127.0.0.1:3306".to_string()),
        db_name: None,
        affected_rows: None,
        last_insert_id: None,
        warnings: None,
        column_count: None,
        row_count: None,
        error_code: None,
        sql_state: None,
        error_message: None,
    }
}

#[test]
fn base64_encoding_of_known_values() {
    assert_eq!(b64_encode(b""), "");
    assert_eq!(b64_encode(b"f"), "Zg==");
    assert_eq!(b64_encode(b"fo"), "Zm8=");
    assert_eq!(b64_encode(b"foo"), "Zm9v");
    assert_eq!(b64_encode(b"foobar"), "Zm9vYmFy");
    assert_eq!(b64_encode(&[0xfb, 0xff, 0xbf]), "+/+/");
}

#[test]
fn body_capped_and_empty_body_absent() {
    assert_eq!(body_b64(b""), None);
    let big = vec![7u8; MAX_BODY + 10];
    assert_eq!(body_b64(&big), Some(b64_encode(&big[..MAX_BODY])));
}

#[test]
fn oversize_datagram_dropped_whole() {
    assert_eq!(admit_datagram(vec![1u8; MAX_DATAGRAM]).map(|d| d.len()), Some(MAX_DATAGRAM));
    assert!(admit_datagram(vec![1u8; MAX_DATAGRAM + 1]).is_none());
    assert!(admit_datagram(vec![1u8; 61 * 1024]).is_none());
}

#[test]
fn method_names_parse_in_any_case() {
    assert_eq!(parse_method("delete"), HttpMethod::Delete);
    assert_eq!(parse_method("Options"), HttpMethod::Options);
    assert_eq!(parse_method("BREW"), HttpMethod::Get);
    assert_eq!(HttpMethod::Connect.as_text(), "CONNECT");
}

#[test]
fn agent_http_message_becomes_trace() {
    let t = http_trace_from_agent(agent("post", "http://a/b"), [1; 8], [2; 16]);
    assert_eq!(t.method, HttpMethod::Post);
    assert_eq!(t.span_id, SpanId([1; 8]));
    assert_eq!(t.trace_id, TraceId([2; 16]));
    assert_eq!(t.request_body.as_deref(), Some(&b"hello"[..]));
    assert_eq!(t.response_body, None);
    assert_eq!(t.protocol_version, "HTTP/1.1");
    assert_eq!(t.timestamp_ms, 1_700_000_000_000);
    let r = agent_trace_to_http_trace(agent("GET", "http://a/b"));
    assert_eq!(r.url, "http://a/b");
    assert_eq!(decode_body(Some(b64_encode(b"round trip"))), Some(b"round trip".to_vec()));
}

#[test]
fn agent_mysql_response_kind_inferred() {
    let ok = mysql_trace_from_agent(mysql_agent(), [0; 8], [0; 16]);
    assert!(matches!(ok.response, MysqlResponseKind::OkPacket { affected_rows: 0, last_insert_id: 0, warnings: 0 }));
    let mut rs = mysql_agent();
    rs.column_count = Some(2);
    rs.row_count = Some(5);
    rs.affected_rows = Some(9);
    let rs = mysql_trace_from_agent(rs, [0; 8], [0; 16]);
    assert!(matches!(rs.response, MysqlResponseKind::ResultSet { column_count: 2, row_count: 5 }));
    let mut err = mysql_agent();
    err.error_code = Some(1064);
    err.column_count = Some(1);
    err.sql_state = Some("42000".to_string());
    match agent_mysql_trace_to_mysql_trace(err).response {
        MysqlResponseKind::ErrPacket { error_code, sql_state, message } => {
            assert_eq!(error_code, 1064);
            assert_eq!(sql_state, "42000");
            assert_eq!(message, "");
        }
        other => panic!("wrong variant: {other:?}"),
    }
}

#[test]
fn store_keys_are_big_endian() {
    assert_eq!(encode_timestamp(0x0102_0304_0506_0708), [1, 2, 3, 4, 5, 6, 7, 8]);
    let k = time_key(256, &SpanId([9; 8]));
    assert_eq!(&k[..8], &[0, 0, 0, 0, 0, 0, 1, 0]);
    assert_eq!(&k[8..], &[9; 8]);
    assert!(time_key(255, &SpanId([0xff; 8])) < time_key(256, &SpanId([0; 8])));
    let t = trace_id_key(&TraceId([3; 16]), &SpanId([4; 8]));
    assert_eq!(&t[..16], &[3; 16]);
    assert_eq!(&t[16..], &[4; 8]);
}

fn trace(url: &str) -> HttpTrace {
    HttpTrace {
        span_id: SpanId([0; 8]),
        trace_id: TraceId([0; 16]),
        parent_span_id: None,
        method: HttpMethod::Get,
        url: url.to_string(),
        request_headers: vec![],
        request_body: None,
        status_code: 200,
        response_headers: vec![],
        response_body: None,
        timestamp_ms: 0,
        duration_ms: 0,
        source_addr: None,
        dest_addr: None,
        protocol_version: "HTTP/1.1".to_string(),
    }
}

fn query(q: &str) -> MysqlTrace {
    mysql_trace_from_agent(AgentMysqlTrace { query: q.to_string(), ..mysql_agent() }, [0; 8], [0; 16])
}

#[test]
fn dashboard_filter_and_navigation() {
    let mut app = App::new("ldpreload");
    assert_eq!(app.backend_name, "ldpreload");
    app.add_trace(trace("http://a/Users"));
    app.add_trace(trace("http://a/health"));
    app.add_trace(trace("http://a/users/2"));
    assert_eq!(app.filtered_traces().len(), 3);
    app.move_down();
    app.move_down();
    app.move_down();
    assert_eq!(app.selected_index, 2);
    app.jump_top();
    assert_eq!(app.selected_index, 0);
    app.activate_filter();
    for c in "USERS".chars() {
        app.push_filter_char(c);
    }
    let shown: Vec<&str> = app.filtered_traces().iter().map(|t| t.url.as_str()).collect();
    assert_eq!(shown, vec!["http://a/users/2", "http://a/Users"]);
    app.jump_bottom();
    assert_eq!(app.selected_trace().unwrap().url, "http://a/Users");
    app.pop_filter_char();
    assert_eq!(app.filter, "USER");
    app.clear_filter();
    assert!(!app.filter_active);
    assert_eq!(app.filtered_traces().len(), 3);
    app.move_up();
    assert_eq!(app.selected_index, 0);
}

#[test]
fn dashboard_selection_follows_new_traces() {
    let mut app = App::new("x");
    app.add_trace(trace("http://a/1"));
    app.add_trace(trace("http://a/2"));
    app.move_down();
    assert_eq!(app.selected_index, 1);
    app.add_trace(trace("http://a/3"));
    assert_eq!(app.selected_index, 2);
    assert_eq!(app.trace_count, 3);
    assert_eq!(app.selected_trace().unwrap().url, "http://a/1");
}

#[test]
fn dashboard_mysql_tab() {
    let mut app = App::new("x");
    app.switch_tab(ActiveTab::Mysql);
    assert_eq!(app.active_tab, ActiveTab::Mysql);
    app.add_mysql_trace(query("SELECT * FROM users"));
    app.add_mysql_trace(query("insert into orders values (1)"));
    assert_eq!(app.mysql_trace_count, 2);
    app.push_filter_char('I');
    assert_eq!(app.filtered_mysql_traces().len(), 1);
    assert_eq!(app.selected_mysql_trace().unwrap().query, "insert into orders values (1)");
    app.jump_bottom();
    assert_eq!(app.mysql_selected_index, 0);
    app.toggle_pane();
    assert_eq!(app.active_pane, Pane::TraceDetail);
    app.toggle_pane();
    assert_eq!(app.active_pane, Pane::TraceList);
    app.deactivate_filter();
    assert!(!app.filter_active);
    assert_eq!(EventHandler::new(250).tick_rate_ms, 250);
}

#[test]
fn ids_render_as_hex() {
    assert_eq!(SpanId([0, 1, 0xab, 0xff, 0x10, 9, 0, 0]).to_hex(), "0001abff10090000");
    assert_eq!(TraceId([0xfe; 16]).to_hex(), "fe".repeat(16));
}

#[test]
fn display_helpers() {
    assert_eq!(format_time(1_700_000_000_000), "22:13:20");
    assert_eq!(format_time(0), "00:00:00");
    assert_eq!(truncate_url("https://example.com/api/users", 11), "example.co…");
    assert_eq!(truncate_url("http://a/b", 10), "a/b");
    assert_eq!(truncate_str("abcdef", 6), "abcdef");
    assert_eq!(truncate_str("abcdefg", 6), "abcde…");
}
