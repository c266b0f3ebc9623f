use phantom::mysql::{
    decode_lenenc_int, mysql_teardown_msg, parse_mysql_packet, process_mysql_incoming,
    process_mysql_outgoing, HandshakePhase, MysqlConnState, MysqlQueryState,
};

#[test]
fn test_parse_mysql_packet_complete() {
    let buf = [5u8, 0, 0, 0, b'h', b'e', b'l', b'l', b'o'];
    let (consumed, seq, payload) = parse_mysql_packet(&buf).unwrap();
    assert_eq!(consumed, 9);
    assert_eq!(seq, 0);
    assert_eq!(payload, b"hello");
}

#[test]
fn test_parse_mysql_packet_incomplete() {
    let buf = [10u8, 0, 0, 0, b'h', b'i'];
    assert!(parse_mysql_packet(&buf).is_none());
}

#[test]
fn test_parse_mysql_packet_too_short_for_header() {
    assert!(parse_mysql_packet(&[1, 0, 0]).is_none());
}

#[test]
fn test_decode_lenenc_int_1byte() {
    assert_eq!(decode_lenenc_int(&[42]), Some((42, 1)));
    assert_eq!(decode_lenenc_int(&[0]), Some((0, 1)));
    assert_eq!(decode_lenenc_int(&[0xfb]), Some((251, 1)));
}

#[test]
fn test_decode_lenenc_int_2byte() {
    let buf = [0xfc, 0x01, 0x00];
    assert_eq!(decode_lenenc_int(&buf), Some((1, 3)));
    let buf = [0xfc, 0xff, 0xff];
    assert_eq!(decode_lenenc_int(&buf), Some((65535, 3)));
}

#[test]
fn test_decode_lenenc_int_3byte() {
    let buf = [0xfd, 0x01, 0x00, 0x00];
    assert_eq!(decode_lenenc_int(&buf), Some((1, 4)));
}

#[test]
fn test_decode_lenenc_int_8byte() {
    let mut buf = [0u8; 9];
    buf[0] = 0xfe;
    buf[1] = 42;
    assert_eq!(decode_lenenc_int(&buf), Some((42, 9)));
}

#[test]
fn test_decode_lenenc_int_insufficient() {
    assert_eq!(decode_lenenc_int(&[0xfc, 0x01]), None);
    assert_eq!(decode_lenenc_int(&[]), None);
}

fn make_mysql_packet(seq_id: u8, payload: &[u8]) -> Vec<u8> {
    let len = payload.len() as u32;
    let mut v = vec![
        (len & 0xff) as u8,
        ((len >> 8) & 0xff) as u8,
        ((len >> 16) & 0xff) as u8,
        seq_id,
    ];
    v.extend_from_slice(payload);
    v
}

fn do_handshake(state: &mut MysqlConnState) {
    let greeting = make_mysql_packet(0, &[0x0a, b'8', b'.', b'0', 0]);
    process_mysql_incoming(state, &greeting, 0);
    let auth = make_mysql_packet(1, &[0x00]);
    process_mysql_outgoing(state, &auth, 0, 0);
    let auth_ok = make_mysql_packet(2, &[0x00, 0x00, 0x00, 0x02, 0x00, 0x00, 0x00]);
    process_mysql_incoming(state, &auth_ok, 0);
    assert!(matches!(state.handshake, HandshakePhase::Done));
}

#[test]
fn test_mysql_state_ok_response() {
    let mut state = MysqlConnState::new(Some("127.0.0.1:3306".to_string()));
    do_handshake(&mut state);

    let query_pkt = make_mysql_packet(0, b"\x03SELECT 1");
    process_mysql_outgoing(&mut state, &query_pkt, 10, 1000);
    assert!(matches!(
        state.query_state,
        MysqlQueryState::AwaitingResponse { .. }
    ));

    let ok_payload = [0x00u8, 0x00, 0x00, 0x02, 0x00, 0x00, 0x00];
    let ok_pkt = make_mysql_packet(1, &ok_payload);
    let msg = process_mysql_incoming(&mut state, &ok_pkt, 15).unwrap();
    assert_eq!(msg.query, "SELECT 1");
    assert_eq!(msg.affected_rows, Some(0));
    assert!(msg.error_code.is_none());
    assert!(matches!(state.query_state, MysqlQueryState::Idle));
}

#[test]
fn test_mysql_state_err_response() {
    let mut state = MysqlConnState::new(None);
    do_handshake(&mut state);

    let query_pkt = make_mysql_packet(0, b"\x03BAD QUERY");
    process_mysql_outgoing(&mut state, &query_pkt, 0, 0);

    let mut err_payload = vec![0xffu8, 0x28, 0x04];
    err_payload.extend_from_slice(b"#42000syntax error");
    let err_pkt = make_mysql_packet(1, &err_payload);
    let msg = process_mysql_incoming(&mut state, &err_pkt, 0).unwrap();
    assert_eq!(msg.query, "BAD QUERY");
    assert_eq!(msg.error_code, Some(1064));
    assert_eq!(msg.sql_state.as_deref(), Some("42000"));
    assert!(msg.error_message.as_deref().unwrap().contains("syntax error"));
}

#[test]
fn test_mysql_state_resultset() {
    let mut state = MysqlConnState::new(None);
    do_handshake(&mut state);

    let query_pkt = make_mysql_packet(0, b"\x03SELECT id, name FROM users");
    process_mysql_outgoing(&mut state, &query_pkt, 0, 0);

    let col_count_pkt = make_mysql_packet(1, &[0x02]);
    let r = process_mysql_incoming(&mut state, &col_count_pkt, 0);
    assert!(r.is_none());
    assert!(matches!(
        state.query_state,
        MysqlQueryState::ReadingResultSet { .. }
    ));

    for seq in 2u8..4 {
        let col_def = make_mysql_packet(seq, b"def\x00\x00\x00id");
        process_mysql_incoming(&mut state, &col_def, 0);
    }

    let eof_cols = make_mysql_packet(4, &[0xfe, 0x00, 0x00, 0x02, 0x00]);
    process_mysql_incoming(&mut state, &eof_cols, 0);

    for seq in 5u8..7 {
        let row = make_mysql_packet(seq, b"\x011\x05Alice");
        process_mysql_incoming(&mut state, &row, 0);
    }

    let eof_rows = make_mysql_packet(7, &[0xfe, 0x00, 0x00, 0x02, 0x00]);
    let msg = process_mysql_incoming(&mut state, &eof_rows, 0).unwrap();
    assert_eq!(msg.column_count, Some(2));
    assert_eq!(msg.row_count, Some(2));
    assert!(msg.error_code.is_none());
    assert!(matches!(state.query_state, MysqlQueryState::Idle));
}

#[test]
fn mysql_ok_select_one_records_times_and_endpoint() {
    let mut state = MysqlConnState::new(Some("127.0.0.1:3306".to_string()));
    do_handshake(&mut state);
    process_mysql_outgoing(&mut state, &[0x09, 0, 0, 0, 0x03, 0x53, 0x45, 0x4c, 0x45, 0x43, 0x54, 0x20, 0x31], 100, 5000);
    // OK: affected 3, last insert id 7, status 0x0002, warnings 4.
    let ok = make_mysql_packet(1, &[0x00, 0x03, 0x07, 0x02, 0x00, 0x04, 0x00]);
    let msg = process_mysql_incoming(&mut state, &ok, 130).unwrap();
    assert_eq!(msg.query, "SELECT 1");
    assert_eq!(msg.affected_rows, Some(3));
    assert_eq!(msg.last_insert_id, Some(7));
    assert_eq!(msg.warnings, Some(4));
    assert_eq!(msg.duration_ms, 30);
    assert_eq!(msg.timestamp_ms, 5000);
    assert_eq!(msg.dest_addr.as_deref(), Some("127.0.0.1:3306"));
    assert!(msg.column_count.is_none());
}

#[test]
fn mysql_err_without_sql_state_keeps_message_from_byte_three() {
    let mut state = MysqlConnState::new(None);
    do_handshake(&mut state);
    process_mysql_outgoing(&mut state, &make_mysql_packet(0, b"\x03X"), 0, 0);
    let err = make_mysql_packet(1, b"\xff\x15\x04denied");
    let msg = process_mysql_incoming(&mut state, &err, 0).unwrap();
    assert_eq!(msg.error_code, Some(1045));
    assert_eq!(msg.sql_state.as_deref(), Some(""));
    assert_eq!(msg.error_message.as_deref(), Some("denied"));
}

#[test]
fn mysql_result_set_ended_by_ok_terminator() {
    let mut state = MysqlConnState::new(None);
    do_handshake(&mut state);
    process_mysql_outgoing(&mut state, &make_mysql_packet(0, b"\x03SELECT a FROM t"), 0, 0);
    let mut bytes = make_mysql_packet(1, &[0x01]);
    bytes.extend(make_mysql_packet(2, b"def"));
    bytes.extend(make_mysql_packet(3, &[0xfe, 0, 0, 2, 0]));
    bytes.extend(make_mysql_packet(4, b"\x01x"));
    bytes.extend(make_mysql_packet(5, &[0x00, 0, 0, 2, 0, 0, 0]));
    let msg = process_mysql_incoming(&mut state, &bytes, 0).unwrap();
    assert_eq!(msg.column_count, Some(1));
    assert_eq!(msg.row_count, Some(1));
}

#[test]
fn mysql_packets_split_across_reads() {
    let mut state = MysqlConnState::new(None);
    do_handshake(&mut state);
    let q = make_mysql_packet(0, b"\x03SELECT 1");
    process_mysql_outgoing(&mut state, &q[..3], 0, 0);
    assert!(matches!(state.query_state, MysqlQueryState::Idle));
    process_mysql_outgoing(&mut state, &q[3..], 0, 0);
    assert!(matches!(state.query_state, MysqlQueryState::AwaitingResponse { .. }));
    let ok = make_mysql_packet(1, &[0x00, 0x00, 0x00, 0x02, 0x00, 0x00, 0x00]);
    assert!(process_mysql_incoming(&mut state, &ok[..5], 0).is_none());
    assert!(process_mysql_incoming(&mut state, &ok[5..], 0).is_some());
}

#[test]
fn mysql_query_before_handshake_is_ignored() {
    let mut state = MysqlConnState::new(None);
    process_mysql_outgoing(&mut state, &make_mysql_packet(0, b"\x03SELECT 1"), 0, 0);
    assert!(matches!(state.query_state, MysqlQueryState::Idle));
}

#[test]
fn mysql_teardown_reports_query_in_flight() {
    let mut state = MysqlConnState::new(None);
    do_handshake(&mut state);
    assert!(mysql_teardown_msg(&state, 0).is_none());
    process_mysql_outgoing(&mut state, &make_mysql_packet(0, b"\x03SLOW"), 10, 77);
    let msg = mysql_teardown_msg(&state, 50).unwrap();
    assert_eq!(msg.query, "SLOW");
    assert_eq!(msg.duration_ms, 40);
    assert_eq!(msg.timestamp_ms, 77);
    assert!(msg.affected_rows.is_none() && msg.error_code.is_none() && msg.column_count.is_none());
}

#[test]
fn lenenc_ff_is_no_value() {
    assert_eq!(decode_lenenc_int(&[0xff, 0, 0]), None);
    assert_eq!(decode_lenenc_int(&[0xfd, 0x01, 0x02, 0x03]), Some((0x030201, 4)));
}
