//! MySQL wire-protocol reassembly: packets, the handshake, and COM_QUERY
//! round-trips with their OK, ERR and result-set responses.
use vstd::prelude::*;
use crate::bytes::{
    append_capped, capped_append, copy_range, drop_front, le_value, read_le, tail, MAX_BUF,
};
use crate::text::{lossy_of, utf8_lossy};

verus! {

/// A complete packet at the head of `buf`: bytes taken, sequence id, payload.
pub open spec fn packet_spec(buf: Seq<u8>) -> Option<(int, u8, Seq<u8>)> {
    if buf.len() < 4 {
        None
    } else {
        let n: int = 4 + le_value(buf.subrange(0, 3)) as int;
        if buf.len() < n {
            None
        } else {
            Some((n, buf[3], buf.subrange(4, n)))
        }
    }
}

pub open spec fn packet_view(r: Option<(usize, u8, &[u8])>) -> Option<(int, u8, Seq<u8>)> {
    match r {
        Some((n, s, p)) => Some((n as int, s, p@)),
        None => None,
    }
}

/// Splits the packet `[3-byte little-endian length][sequence id][payload]`
/// off the head of `buf`, if it is complete.
pub fn parse_mysql_packet(buf: &[u8]) -> (r: Option<(usize, u8, &[u8])>)
    ensures
        packet_view(r) == packet_spec(buf@),
{
    if buf.len() < 4 {
        return None;
    }
    let payload_len = read_le(buf, 0, 3) as usize;
    proof {
        crate::bytes::lemma_le_value_bound(buf@.subrange(0, 3));
        reveal_with_fuel(crate::bytes::pow256, 4);
    }
    if buf.len() - 4 < payload_len {
        return None;
    }
    let total = 4 + payload_len;
    Some((total, buf[3], vstd::slice::slice_subrange(buf, 4, total)))
}

/// The value and width of the length-encoded integer at the head of `b`.
pub open spec fn lenenc_spec(b: Seq<u8>) -> Option<(u64, usize)> {
    if b.len() == 0 {
        None
    } else if b[0] <= 0xfb {
        Some((b[0] as u64, 1usize))
    } else if b[0] == 0xfc {
        if b.len() < 3 {
            None
        } else {
            Some((le_value(b.subrange(1, 3)) as u64, 3usize))
        }
    } else if b[0] == 0xfd {
        if b.len() < 4 {
            None
        } else {
            Some((le_value(b.subrange(1, 4)) as u64, 4usize))
        }
    } else if b[0] == 0xfe {
        if b.len() < 9 {
            None
        } else {
            Some((le_value(b.subrange(1, 9)) as u64, 9usize))
        }
    } else {
        None
    }
}

/// Decodes a length-encoded integer: its value and the bytes it takes.
/// `0xff` marks an ERR packet and is no value.
pub fn decode_lenenc_int(buf: &[u8]) -> (r: Option<(u64, usize)>)
    ensures
        r == lenenc_spec(buf@),
{
    if buf.len() == 0 {
        return None;
    }
    let first = buf[0];
    if first <= 0xfb {
        Some((first as u64, 1))
    } else if first == 0xfc {
        if buf.len() < 3 {
            None
        } else {
            Some((read_le(buf, 1, 2), 3))
        }
    } else if first == 0xfd {
        if buf.len() < 4 {
            None
        } else {
            Some((read_le(buf, 1, 3), 4))
        }
    } else if first == 0xfe {
        if buf.len() < 9 {
            None
        } else {
            Some((read_le(buf, 1, 8), 9))
        }
    } else {
        None
    }
}

#[derive(Clone, Copy, Debug, PartialEq, Eq, Structural)]
pub enum HandshakePhase {
    /// Waiting for the server greeting.
    WaitingGreeting,
    /// Greeting seen; waiting for the server's authentication OK.
    WaitingAuthOk,
    /// Handshake complete; commands are tracked.
    Done,
}

#[derive(Clone, Copy, Debug, PartialEq, Eq, Structural)]
pub enum ResultSetPhase {
    /// Reading column-definition packets.
    ReadingColumns { cols_seen: u64 },
    /// Column definitions done; reading data rows.
    ReadingRows,
}

/// Where the tracked command stands. Times are milliseconds: `started_ms`
/// on the caller's monotonic clock, `timestamp_ms` on the wall clock.
#[derive(Debug)]
pub enum MysqlQueryState {
    Idle,
    AwaitingResponse { query: String, started_ms: u64, timestamp_ms: u64 },
    ReadingResultSet {
        query: String,
        started_ms: u64,
        timestamp_ms: u64,
        column_count: u64,
        row_count: u64,
        phase: ResultSetPhase,
    },
}

pub enum QueryView {
    Idle,
    Awaiting { query: Seq<char>, started_ms: u64, timestamp_ms: u64 },
    ResultSet {
        query: Seq<char>,
        started_ms: u64,
        timestamp_ms: u64,
        column_count: u64,
        row_count: u64,
        phase: ResultSetPhase,
    },
}

impl View for MysqlQueryState {
    type V = QueryView;

    open spec fn view(&self) -> QueryView {
        match self {
            MysqlQueryState::Idle => QueryView::Idle,
            MysqlQueryState::AwaitingResponse { query, started_ms, timestamp_ms } => {
                QueryView::Awaiting { query: query@, started_ms: *started_ms, timestamp_ms: *timestamp_ms }
            },
            MysqlQueryState::ReadingResultSet {
                query,
                started_ms,
                timestamp_ms,
                column_count,
                row_count,
                phase,
            } => QueryView::ResultSet {
                query: query@,
                started_ms: *started_ms,
                timestamp_ms: *timestamp_ms,
                column_count: *column_count,
                row_count: *row_count,
                phase: *phase,
            },
        }
    }
}

/// Per-connection MySQL state.
#[derive(Debug)]
pub struct MysqlConnState {
    pub dest_addr: Option<String>,
    pub db_name: Option<String>,
    /// Client bytes not yet split into packets.
    pub send_buf: Vec<u8>,
    /// Server bytes not yet split into packets.
    pub recv_buf: Vec<u8>,
    pub handshake: HandshakePhase,
    pub query_state: MysqlQueryState,
}

/// A finished (or, at teardown, cut-short) query round-trip.
#[derive(Debug)]
pub struct MysqlTraceMsg {
    pub query: String,
    pub duration_ms: u64,
    pub timestamp_ms: u64,
    pub dest_addr: Option<String>,
    pub db_name: Option<String>,
    pub affected_rows: Option<u64>,
    pub last_insert_id: Option<u64>,
    pub warnings: Option<u16>,
    pub column_count: Option<u64>,
    pub row_count: Option<u64>,
    pub error_code: Option<u16>,
    pub sql_state: Option<String>,
    pub error_message: Option<String>,
}

pub struct MysqlMsgView {
    pub query: Seq<char>,
    pub duration_ms: u64,
    pub timestamp_ms: u64,
    pub dest_addr: Option<Seq<char>>,
    pub db_name: Option<Seq<char>>,
    pub affected_rows: Option<u64>,
    pub last_insert_id: Option<u64>,
    pub warnings: Option<u16>,
    pub column_count: Option<u64>,
    pub row_count: Option<u64>,
    pub error_code: Option<u16>,
    pub sql_state: Option<Seq<char>>,
    pub error_message: Option<Seq<char>>,
}

pub open spec fn opt_str(o: Option<String>) -> Option<Seq<char>> {
    match o {
        Some(s) => Some(s@),
        None => None,
    }
}

impl View for MysqlTraceMsg {
    type V = MysqlMsgView;

    open spec fn view(&self) -> MysqlMsgView {
        MysqlMsgView {
            query: self.query@,
            duration_ms: self.duration_ms,
            timestamp_ms: self.timestamp_ms,
            dest_addr: opt_str(self.dest_addr),
            db_name: opt_str(self.db_name),
            affected_rows: self.affected_rows,
            last_insert_id: self.last_insert_id,
            warnings: self.warnings,
            column_count: self.column_count,
            row_count: self.row_count,
            error_code: self.error_code,
            sql_state: opt_str(self.sql_state),
            error_message: opt_str(self.error_message),
        }
    }
}

pub open spec fn opt_msg(m: Option<MysqlTraceMsg>) -> Option<MysqlMsgView> {
    match m {
        Some(m) => Some(m@),
        None => None,
    }
}

/// Milliseconds from `started` to `now`, or zero if the clock went back.
pub open spec fn elapsed(started: u64, now: u64) -> u64 {
    if now >= started {
        (now - started) as u64
    } else {
        0
    }
}

pub open spec fn sat_inc(x: u64) -> u64 {
    if x < u64::MAX {
        (x + 1) as u64
    } else {
        x
    }
}

pub open spec fn first_byte(p: Seq<u8>) -> u8 {
    if p.len() > 0 {
        p[0]
    } else {
        0
    }
}

/// What the connection's endpoint data contributes to every record.
pub struct ConnInfo {
    pub dest_addr: Option<Seq<char>>,
    pub db_name: Option<Seq<char>>,
}

/// A record with no response fields.
pub open spec fn bare_msg(query: Seq<char>, started: u64, ts: u64, now: u64, c: ConnInfo) -> MysqlMsgView {
    MysqlMsgView {
        query,
        duration_ms: elapsed(started, now),
        timestamp_ms: ts,
        dest_addr: c.dest_addr,
        db_name: c.db_name,
        affected_rows: None,
        last_insert_id: None,
        warnings: None,
        column_count: None,
        row_count: None,
        error_code: None,
        sql_state: None,
        error_message: None,
    }
}

/// Affected rows, and where the last insert id starts, in an OK payload.
pub open spec fn ok_affected(p: Seq<u8>) -> (u64, int) {
    match lenenc_spec(tail(p, 1)) {
        Some((v, o)) => (v, 1 + o),
        None => (0, 1),
    }
}

/// Last insert id, and where the status flags start, in an OK payload.
pub open spec fn ok_last_insert_id(p: Seq<u8>) -> (u64, int) {
    let off = ok_affected(p).1;
    match lenenc_spec(tail(p, off)) {
        Some((v, o)) => (v, off + o),
        None => (0, off + 1),
    }
}

/// Warnings: two little-endian bytes past the two status-flag bytes, or zero
/// when the payload is too short.
pub open spec fn ok_warnings(p: Seq<u8>) -> u16 {
    let off = ok_last_insert_id(p).1;
    if p.len() >= off + 4 {
        le_value(p.subrange(off + 2, off + 4)) as u16
    } else {
        0
    }
}

pub open spec fn err_code(p: Seq<u8>) -> u16 {
    if p.len() >= 3 {
        le_value(p.subrange(1, 3)) as u16
    } else {
        0
    }
}

pub open spec fn has_sql_state(p: Seq<u8>) -> bool {
    p.len() >= 9 && p[3] == 0x23
}

pub open spec fn err_sql_state(p: Seq<u8>) -> Seq<char> {
    if has_sql_state(p) {
        lossy_of(p.subrange(4, 9))
    } else {
        Seq::empty()
    }
}

pub open spec fn err_message(p: Seq<u8>) -> Seq<char> {
    lossy_of(tail(p, if has_sql_state(p) { 9 } else { 3 }))
}

pub open spec fn with_err(m: MysqlMsgView, p: Seq<u8>) -> MysqlMsgView {
    MysqlMsgView {
        error_code: Some(err_code(p)),
        sql_state: Some(err_sql_state(p)),
        error_message: Some(err_message(p)),
        ..m
    }
}

pub open spec fn with_ok(m: MysqlMsgView, p: Seq<u8>) -> MysqlMsgView {
    MysqlMsgView {
        affected_rows: Some(ok_affected(p).0),
        last_insert_id: Some(ok_last_insert_id(p).0),
        warnings: Some(ok_warnings(p)),
        ..m
    }
}

pub open spec fn with_counts(m: MysqlMsgView, cols: u64, rows: u64) -> MysqlMsgView {
    MysqlMsgView { column_count: Some(cols), row_count: Some(rows), ..m }
}

/// One server packet: the next handshake phase, the next query state, and
/// the record it completes, if any.
pub open spec fn recv_step(
    h: HandshakePhase,
    q: QueryView,
    seq: u8,
    p: Seq<u8>,
    now: u64,
    c: ConnInfo,
) -> (HandshakePhase, QueryView, Option<MysqlMsgView>) {
    match h {
        HandshakePhase::WaitingGreeting => {
            if seq == 0 && p.len() > 0 && p[0] == 0x0a {
                (HandshakePhase::WaitingAuthOk, q, None)
            } else {
                (h, q, None)
            }
        },
        HandshakePhase::WaitingAuthOk => {
            if seq >= 2 && p.len() > 0 && p[0] == 0x00 {
                (HandshakePhase::Done, q, None)
            } else {
                (h, q, None)
            }
        },
        HandshakePhase::Done => match q {
            QueryView::Idle => (h, q, None),
            QueryView::Awaiting { query, started_ms, timestamp_ms } => {
                let m = bare_msg(query, started_ms, timestamp_ms, now, c);
                if first_byte(p) == 0x00 {
                    (h, QueryView::Idle, Some(with_ok(m, p)))
                } else if first_byte(p) == 0xff {
                    (h, QueryView::Idle, Some(with_err(m, p)))
                } else {
                    let cols = match lenenc_spec(p) {
                        Some((v, _)) => v,
                        None => 1,
                    };
                    (
                        h,
                        QueryView::ResultSet {
                            query,
                            started_ms,
                            timestamp_ms,
                            column_count: cols,
                            row_count: 0,
                            phase: ResultSetPhase::ReadingColumns { cols_seen: 0 },
                        },
                        None,
                    )
                }
            },
            QueryView::ResultSet { query, started_ms, timestamp_ms, column_count, row_count, phase } => {
                let is_eof = first_byte(p) == 0xfe && p.len() < 9;
                let m = with_counts(
                    bare_msg(query, started_ms, timestamp_ms, now, c),
                    column_count,
                    row_count,
                );
                match phase {
                    ResultSetPhase::ReadingColumns { cols_seen } => {
                        let next = if is_eof {
                            ResultSetPhase::ReadingRows
                        } else {
                            ResultSetPhase::ReadingColumns { cols_seen: sat_inc(cols_seen) }
                        };
                        (
                            h,
                            QueryView::ResultSet {
                                query,
                                started_ms,
                                timestamp_ms,
                                column_count,
                                row_count,
                                phase: next,
                            },
                            None,
                        )
                    },
                    ResultSetPhase::ReadingRows => {
                        if is_eof || first_byte(p) == 0x00 {
                            (h, QueryView::Idle, Some(m))
                        } else if first_byte(p) == 0xff {
                            (h, QueryView::Idle, Some(with_err(m, p)))
                        } else {
                            (
                                h,
                                QueryView::ResultSet {
                                    query,
                                    started_ms,
                                    timestamp_ms,
                                    column_count,
                                    row_count: sat_inc(row_count),
                                    phase,
                                },
                                None,
                            )
                        }
                    },
                }
            },
        },
    }
}

/// Server packets taken from the head of `buf` until one completes a record
/// or no complete packet is left: the phases then, the bytes left, and the
/// record.
pub open spec fn recv_drain(
    h: HandshakePhase,
    q: QueryView,
    buf: Seq<u8>,
    now: u64,
    c: ConnInfo,
) -> (HandshakePhase, QueryView, Seq<u8>, Option<MysqlMsgView>)
    decreases buf.len(),
{
    match packet_spec(buf) {
        None => (h, q, buf, None),
        Some((n, seq, p)) => {
            if 4 <= n <= buf.len() {
                let (h2, q2, m) = recv_step(h, q, seq, p, now, c);
                let rest = buf.subrange(n, buf.len() as int);
                if m is Some {
                    (h2, q2, rest, m)
                } else {
                    recv_drain(h2, q2, rest, now, c)
                }
            } else {
                (h, q, buf, None)
            }
        },
    }
}

/// One client packet: the next query state. A COM_QUERY starts tracking once
/// the handshake is done and no other command is tracked.
pub open spec fn send_step(h: HandshakePhase, q: QueryView, seq: u8, p: Seq<u8>, now: u64, wall: u64) -> QueryView {
    if h == HandshakePhase::Done && seq == 0 && p.len() > 0 && p[0] == 0x03 && q is Idle {
        QueryView::Awaiting { query: lossy_of(tail(p, 1)), started_ms: now, timestamp_ms: wall }
    } else {
        q
    }
}

/// All complete client packets at the head of `buf`: the query state then and
/// the bytes left.
pub open spec fn send_drain(h: HandshakePhase, q: QueryView, buf: Seq<u8>, now: u64, wall: u64) -> (QueryView, Seq<u8>)
    decreases buf.len(),
{
    match packet_spec(buf) {
        None => (q, buf),
        Some((n, seq, p)) => {
            if 4 <= n <= buf.len() {
                send_drain(h, send_step(h, q, seq, p, now, wall), buf.subrange(n, buf.len() as int), now, wall)
            } else {
                (q, buf)
            }
        },
    }
}

proof fn lemma_packet_bounds(buf: Seq<u8>)
    ensures
        packet_spec(buf) matches Some((n, seq, p)) ==> 4 <= n <= buf.len() && p == buf.subrange(4, n)
            && seq == buf[3],
{
}

impl MysqlConnState {
    pub open spec fn info(&self) -> ConnInfo {
        ConnInfo { dest_addr: opt_str(self.dest_addr), db_name: opt_str(self.db_name) }
    }

    pub fn new(dest_addr: Option<String>) -> (r: Self)
        ensures
            opt_str(r.dest_addr) == opt_str(dest_addr),
            r.db_name is None,
            r.send_buf@.len() == 0,
            r.recv_buf@.len() == 0,
            r.handshake == HandshakePhase::WaitingGreeting,
            r.query_state is Idle,
    {
        MysqlConnState {
            dest_addr,
            db_name: None,
            send_buf: Vec::new(),
            recv_buf: Vec::new(),
            handshake: HandshakePhase::WaitingGreeting,
            query_state: MysqlQueryState::Idle,
        }
    }
}

fn clone_opt(o: &Option<String>) -> (r: Option<String>)
    ensures
        opt_str(r) == opt_str(*o),
{
    match o {
        Some(s) => Some(s.clone()),
        None => None,
    }
}

fn bare_record(query: &String, started: u64, ts: u64, now: u64, state: &MysqlConnState) -> (r: MysqlTraceMsg)
    ensures
        r@ == bare_msg(query@, started, ts, now, state.info()),
{
    MysqlTraceMsg {
        query: query.clone(),
        duration_ms: if now >= started { now - started } else { 0 },
        timestamp_ms: ts,
        dest_addr: clone_opt(&state.dest_addr),
        db_name: clone_opt(&state.db_name),
        affected_rows: None,
        last_insert_id: None,
        warnings: None,
        column_count: None,
        row_count: None,
        error_code: None,
        sql_state: None,
        error_message: None,
    }
}

fn sat_increment(x: u64) -> (r: u64)
    ensures
        r == sat_inc(x),
{
    if x < u64::MAX {
        x + 1
    } else {
        x
    }
}

fn fill_err(m: &mut MysqlTraceMsg, p: &[u8])
    ensures
        final(m)@ == with_err(old(m)@, p@),
{
    let code: u16 = if p.len() >= 3 {
        proof {
            crate::bytes::lemma_le_value_bound(p@.subrange(1, 3));
            reveal_with_fuel(crate::bytes::pow256, 3);
        }
        read_le(p, 1, 2) as u16
    } else {
        0
    };
    let has_state = p.len() >= 9 && p[3] == 0x23;
    let state = if has_state {
        utf8_lossy(vstd::slice::slice_subrange(p, 4, 9))
    } else {
        String::new()
    };
    let start: usize = if has_state { 9 } else { 3 };
    let message = if start <= p.len() {
        utf8_lossy(vstd::slice::slice_subrange(p, start, p.len()))
    } else {
        proof {
            assert(p@.subrange(0, 0) =~= tail(p@, 3));
        }
        utf8_lossy(vstd::slice::slice_subrange(p, 0, 0))
    };
    m.error_code = Some(code);
    m.sql_state = Some(state);
    m.error_message = Some(message);
    proof {
        assert(final(m)@ =~= with_err(old(m)@, p@));
    }
}

fn lenenc_at(p: &[u8], k: usize) -> (r: Option<(u64, usize)>)
    ensures
        r == lenenc_spec(tail(p@, k as int)),
{
    if k <= p.len() {
        decode_lenenc_int(vstd::slice::slice_subrange(p, k, p.len()))
    } else {
        proof {
            assert(tail(p@, k as int).len() == 0);
        }
        None
    }
}

fn fill_ok(m: &mut MysqlTraceMsg, p: &[u8])
    ensures
        final(m)@ == with_ok(old(m)@, p@),
{
    let (affected, off1): (u64, usize) = match lenenc_at(p, 1) {
        Some((v, o)) => (v, 1 + o),
        None => (0, 1),
    };
    let (last_id, off2): (u64, usize) = match lenenc_at(p, off1) {
        Some((v, o)) => (v, off1 + o),
        None => (0, off1 + 1),
    };
    let warnings: u16 = if p.len() >= 4 && off2 <= p.len() - 4 {
        proof {
            crate::bytes::lemma_le_value_bound(p@.subrange(off2 + 2, off2 + 4));
            reveal_with_fuel(crate::bytes::pow256, 3);
        }
        read_le(p, off2 + 2, 2) as u16
    } else {
        0
    };
    m.affected_rows = Some(affected);
    m.last_insert_id = Some(last_id);
    m.warnings = Some(warnings);
    proof {
        assert(final(m)@ =~= with_ok(old(m)@, p@));
    }
}

/// Applies one server packet to the connection.
fn recv_packet(state: &mut MysqlConnState, seq: u8, p: &[u8], now: u64) -> (r: Option<MysqlTraceMsg>)
    ensures
        (final(state).handshake, final(state).query_state@, opt_msg(r)) == recv_step(
            old(state).handshake,
            old(state).query_state@,
            seq,
            p@,
            now,
            old(state).info(),
        ),
        final(state).info() == old(state).info(),
        final(state).send_buf@ == old(state).send_buf@,
        final(state).recv_buf@ == old(state).recv_buf@,
{
    match state.handshake {
        HandshakePhase::WaitingGreeting => {
            if seq == 0 && p.len() > 0 && p[0] == 0x0a {
                state.handshake = HandshakePhase::WaitingAuthOk;
            }
            return None;
        },
        HandshakePhase::WaitingAuthOk => {
            if seq >= 2 && p.len() > 0 && p[0] == 0x00 {
                state.handshake = HandshakePhase::Done;
            }
            return None;
        },
        HandshakePhase::Done => {},
    }
    let first: u8 = if p.len() > 0 {
        p[0]
    } else {
        0
    };
    let mut q = MysqlQueryState::Idle;
    std::mem::swap(&mut q, &mut state.query_state);
    match q {
        MysqlQueryState::Idle => None,
        MysqlQueryState::AwaitingResponse { query, started_ms, timestamp_ms } => {
            if first == 0x00 {
                let mut m = bare_record(&query, started_ms, timestamp_ms, now, state);
                fill_ok(&mut m, p);
                Some(m)
            } else if first == 0xff {
                let mut m = bare_record(&query, started_ms, timestamp_ms, now, state);
                fill_err(&mut m, p);
                Some(m)
            } else {
                let column_count = match decode_lenenc_int(p) {
                    Some((v, _)) => v,
                    None => 1,
                };
                state.query_state = MysqlQueryState::ReadingResultSet {
                    query,
                    started_ms,
                    timestamp_ms,
                    column_count,
                    row_count: 0,
                    phase: ResultSetPhase::ReadingColumns { cols_seen: 0 },
                };
                None
            }
        },
        MysqlQueryState::ReadingResultSet {
            query,
            started_ms,
            timestamp_ms,
            column_count,
            row_count,
            phase,
        } => {
            let is_eof = first == 0xfe && p.len() < 9;
            match phase {
                ResultSetPhase::ReadingColumns { cols_seen } => {
                    let next = if is_eof {
                        ResultSetPhase::ReadingRows
                    } else {
                        ResultSetPhase::ReadingColumns { cols_seen: sat_increment(cols_seen) }
                    };
                    state.query_state = MysqlQueryState::ReadingResultSet {
                        query,
                        started_ms,
                        timestamp_ms,
                        column_count,
                        row_count,
                        phase: next,
                    };
                    None
                },
                ResultSetPhase::ReadingRows => {
                    if is_eof || first == 0x00 || first == 0xff {
                        let mut m = bare_record(&query, started_ms, timestamp_ms, now, state);
                        m.column_count = Some(column_count);
                        m.row_count = Some(row_count);
                        if first == 0xff && !is_eof {
                            fill_err(&mut m, p);
                        }
                        Some(m)
                    } else {
                        state.query_state = MysqlQueryState::ReadingResultSet {
                            query,
                            started_ms,
                            timestamp_ms,
                            column_count,
                            row_count: sat_increment(row_count),
                            phase,
                        };
                        None
                    }
                },
            }
        },
    }
}

/// Takes server bytes. Packets are applied in order until one completes a
/// query round-trip, whose record is returned; later packets stay buffered.
/// `now_ms` is the caller's monotonic clock.
pub fn process_mysql_incoming(state: &mut MysqlConnState, data: &[u8], now_ms: u64) -> (r: Option<MysqlTraceMsg>)
    ensures
        (final(state).handshake, final(state).query_state@, final(state).recv_buf@, opt_msg(r))
            == recv_drain(
            old(state).handshake,
            old(state).query_state@,
            capped_append(old(state).recv_buf@, data@, MAX_BUF as nat),
            now_ms,
            old(state).info(),
        ),
        final(state).info() == old(state).info(),
        final(state).send_buf@ == old(state).send_buf@,
{
    append_capped(&mut state.recv_buf, data, MAX_BUF);
    let ghost target = recv_drain(
        state.handshake,
        state.query_state@,
        state.recv_buf@,
        now_ms,
        state.info(),
    );
    loop
        invariant
            recv_drain(state.handshake, state.query_state@, state.recv_buf@, now_ms, state.info())
                == target,
            target == recv_drain(
                old(state).handshake,
                old(state).query_state@,
                capped_append(old(state).recv_buf@, data@, MAX_BUF as nat),
                now_ms,
                old(state).info(),
            ),
            state.info() == old(state).info(),
            state.send_buf@ == old(state).send_buf@,
        decreases state.recv_buf@.len(),
    {
        let parsed = parse_mysql_packet(state.recv_buf.as_slice());
        match parsed {
            None => {
                proof {
                    assert(packet_spec(state.recv_buf@) is None);
                    assert(recv_drain(state.handshake, state.query_state@, state.recv_buf@, now_ms, state.info())
                        == (state.handshake, state.query_state@, state.recv_buf@, None::<MysqlMsgView>));
                }
                return None;
            },
            Some((n, seq, payload)) => {
                proof {
                    lemma_packet_bounds(state.recv_buf@);
                }
                let p = copy_range(state.recv_buf.as_slice(), 4, n);
                let r = recv_packet(state, seq, p.as_slice(), now_ms);
                drop_front(&mut state.recv_buf, n);
                if r.is_some() {
                    return r;
                }
            },
        }
    }
}

/// Takes client bytes. Every complete packet is applied; a COM_QUERY starts
/// tracking a query at `now_ms` (monotonic) and `wall_ms` (wall clock).
pub fn process_mysql_outgoing(state: &mut MysqlConnState, data: &[u8], now_ms: u64, wall_ms: u64)
    ensures
        (final(state).query_state@, final(state).send_buf@) == send_drain(
            old(state).handshake,
            old(state).query_state@,
            capped_append(old(state).send_buf@, data@, MAX_BUF as nat),
            now_ms,
            wall_ms,
        ),
        final(state).handshake == old(state).handshake,
        final(state).info() == old(state).info(),
        final(state).recv_buf@ == old(state).recv_buf@,
{
    append_capped(&mut state.send_buf, data, MAX_BUF);
    let ghost target = send_drain(state.handshake, state.query_state@, state.send_buf@, now_ms, wall_ms);
    loop
        invariant
            send_drain(state.handshake, state.query_state@, state.send_buf@, now_ms, wall_ms) == target,
            target == send_drain(
                old(state).handshake,
                old(state).query_state@,
                capped_append(old(state).send_buf@, data@, MAX_BUF as nat),
                now_ms,
                wall_ms,
            ),
            state.handshake == old(state).handshake,
            state.info() == old(state).info(),
            state.recv_buf@ == old(state).recv_buf@,
        decreases state.send_buf@.len(),
    {
        let parsed = parse_mysql_packet(state.send_buf.as_slice());
        match parsed {
            None => {
                proof {
                    assert(packet_spec(state.send_buf@) is None);
                }
                return;
            },
            Some((n, seq, payload)) => {
                proof {
                    lemma_packet_bounds(state.send_buf@);
                }
                let starts = state.handshake == HandshakePhase::Done && seq == 0 && n > 4
                    && state.send_buf[4] == 0x03;
                if starts {
                    if let MysqlQueryState::Idle = state.query_state {
                        let query = utf8_lossy(vstd::slice::slice_subrange(state.send_buf.as_slice(), 5, n));
                        proof {
                            assert(tail(state.send_buf@.subrange(4, n as int), 1) =~= state.send_buf@.subrange(5, n as int));
                        }
                        state.query_state = MysqlQueryState::AwaitingResponse {
                            query,
                            started_ms: now_ms,
                            timestamp_ms: wall_ms,
                        };
                    }
                }
                drop_front(&mut state.send_buf, n);
            },
        }
    }
}

/// The record owed when the connection closes: a query still waiting for its
/// response (or reading its result set) is reported with no response fields.
pub open spec fn teardown_spec(q: QueryView, now_ms: u64, c: ConnInfo) -> Option<MysqlMsgView> {
    match q {
        QueryView::Idle => None,
        QueryView::Awaiting { query, started_ms, timestamp_ms } => Some(
            bare_msg(query, started_ms, timestamp_ms, now_ms, c),
        ),
        QueryView::ResultSet { query, started_ms, timestamp_ms, .. } => Some(
            bare_msg(query, started_ms, timestamp_ms, now_ms, c),
        ),
    }
}

pub fn mysql_teardown_msg(state: &MysqlConnState, now_ms: u64) -> (r: Option<MysqlTraceMsg>)
    ensures
        opt_msg(r) == teardown_spec(state.query_state@, now_ms, state.info()),
{
    match &state.query_state {
        MysqlQueryState::Idle => None,
        MysqlQueryState::AwaitingResponse { query, started_ms, timestamp_ms } => Some(
            bare_record(query, *started_ms, *timestamp_ms, now_ms, state),
        ),
        MysqlQueryState::ReadingResultSet { query, started_ms, timestamp_ms, .. } => Some(
            bare_record(query, *started_ms, *timestamp_ms, now_ms, state),
        ),
    }
}

} // verus!
