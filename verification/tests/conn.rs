use vash_server::auth::{Auth, ConnAuth, Limits};
use vash_server::config::ProtocolConfig;
use vash_server::conn::{
    awaited_replies, memcached_kind, plan_segments, reserve_for, resp_kind, Arrival, Connection,
    Detected, Frame, Measured, Run, RunKind, Segment, TextCommand, Tier, PRE_AUTH_MAX_BUFFERED,
};
use vash_server::domain::{Command, Key, SetMode, SetRequest, Status, TtlChange};
use vash_server::memcached::{execute_unauthenticated, Answer, Parsed, ResponseStyle};
use vash_server::metrics::ServerMetrics;
use vash_server::protocol::Protocol;
use vash_server::resp::{run_auth, Presented, RespCommand};
use vash_server::vcp::execute_auth;

fn limits() -> Limits {
    Limits {
        timeout_ms: 1_000,
        max_attempts: 2,
        max_connections: 1,
    }
}

fn run(len: usize, kind: RunKind) -> Run {
    Run { len, kind }
}

fn segment(start: usize, len: usize, tier: Tier) -> Segment {
    Segment { start, len, tier }
}

#[test]
fn frames_of_one_kind_are_one_run() {
    let mut measured = Measured::new();
    assert!(measured.frame(false, Frame::Complete { len: 12, read_only: true }));
    assert!(measured.frame(false, Frame::Complete { len: 20, read_only: true }));
    assert!(measured.frame(false, Frame::Complete { len: 30, read_only: false }));
    assert!(!measured.frame(false, Frame::Incomplete { needed: 100 }));
    assert_eq!(measured.complete, 62);
    assert_eq!(measured.reserve, 100);
    assert_eq!(measured.runs, [run(32, RunKind::Reads), run(30, RunKind::Other)]);
    assert_eq!(reserve_for(&measured, 62), 38);
    assert_eq!(reserve_for(&measured, 200), 0);
}

#[test]
fn a_frame_too_large_is_fatal() {
    let mut measured = Measured::new();
    assert!(!measured.frame(false, Frame::TooLarge));
    assert!(measured.fatal.is_some());
}

#[test]
fn text_commands_are_stepped_over_one_by_one() {
    let mut measured = Measured::new();
    assert!(measured.text(TextCommand::Command { consumed: 7, kind: RunKind::Reads }));
    assert!(measured.text(TextCommand::Recoverable { consumed: 5 }));
    assert!(measured.text(TextCommand::Command { consumed: 9, kind: RunKind::Writes }));
    assert!(!measured.text(TextCommand::Incomplete));
    assert_eq!(measured.complete, 21);
    assert!(measured.fatal.is_none());
    let mut broken = Measured::new();
    assert!(!broken.text(TextCommand::Fatal("no framing")));
    assert_eq!(broken.fatal, Some("no framing"));
}

#[test]
fn runs_go_to_the_tier_that_suits_them() {
    let runs = vec![
        run(10, RunKind::Reads),
        run(5, RunKind::Writes),
        run(7, RunKind::Other),
        run(3, RunKind::Reads),
    ];
    assert_eq!(
        plan_segments(&runs, true, true),
        [
            segment(0, 10, Tier::Inline),
            segment(10, 5, Tier::Awaited),
            segment(15, 7, Tier::Pool),
            segment(22, 3, Tier::Inline),
        ]
    );
    // Without either shortcut the whole block is one hop to the pool.
    assert_eq!(plan_segments(&runs, false, false), [segment(0, 25, Tier::Pool)]);
    // Neighbours bound for the pool are one hop.
    assert_eq!(
        plan_segments(&runs, true, false),
        [
            segment(0, 10, Tier::Inline),
            segment(10, 12, Tier::Pool),
            segment(22, 3, Tier::Inline),
        ]
    );
}

#[test]
fn a_silent_write_owes_no_reply() {
    assert_eq!(awaited_replies(0, &Vec::new()), None);
    assert_eq!(awaited_replies(3, &vec![false, true, false]), Some(2));
}

#[test]
fn a_dialect_settles_on_the_first_byte() {
    let mut metrics = ServerMetrics::default();
    let protocol = ProtocolConfig::default();
    let mut conn = Connection::open(false, limits());
    assert_eq!(
        conn.arrived(&mut metrics, 4, 4, Detected::Dialect(Protocol::Resp), &protocol, false),
        Arrival::Drain { protocol: Protocol::Resp, gated: false }
    );
    // Never revisited.
    assert_eq!(
        conn.arrived(&mut metrics, 4, 4, Detected::Dialect(Protocol::Vcp), &protocol, false),
        Arrival::Drain { protocol: Protocol::Resp, gated: false }
    );
    assert_eq!(
        conn.arrived(&mut metrics, 0, 0, Detected::Nothing, &protocol, false),
        Arrival::Close
    );
    assert_eq!(metrics.outcomes.bytes_read, 8);
}

#[test]
fn what_is_not_served_is_closed() {
    let mut metrics = ServerMetrics::default();
    let mut protocol = ProtocolConfig::default();
    protocol.resp_enabled = false;
    let mut conn = Connection::open(false, limits());
    assert_eq!(
        conn.arrived(&mut metrics, 1, 1, Detected::Dialect(Protocol::Resp), &protocol, false),
        Arrival::Close
    );
    assert_eq!(conn.protocol, None);
    assert_eq!(
        conn.arrived(&mut metrics, 1, 1, Detected::Unknown(0xff), &protocol, false),
        Arrival::Close
    );
    assert_eq!(
        conn.arrived(&mut metrics, 1, 1, Detected::Nothing, &protocol, false),
        Arrival::ReadMore
    );
}

#[test]
fn a_stranger_may_not_fill_the_buffer() {
    let mut metrics = ServerMetrics::default();
    let protocol = ProtocolConfig::default();
    let mut conn = Connection::open(true, limits());
    assert!(conn.unauthenticated());
    let byte = Detected::Dialect(Protocol::Vcp);
    assert_eq!(
        conn.arrived(&mut metrics, 1, PRE_AUTH_MAX_BUFFERED, byte, &protocol, true),
        Arrival::Drain { protocol: Protocol::Vcp, gated: true }
    );
    assert_eq!(
        conn.arrived(&mut metrics, 1, PRE_AUTH_MAX_BUFFERED + 1, byte, &protocol, true),
        Arrival::Close
    );
    let table = Auth::for_test(true, "n", b"hunter2hunter2hu");
    conn.auth.succeed(table.verify(b"n", b"hunter2hunter2hu").unwrap());
    assert!(!conn.unauthenticated());
    assert_eq!(
        conn.arrived(&mut metrics, 1, PRE_AUTH_MAX_BUFFERED + 1, byte, &protocol, true),
        Arrival::Drain { protocol: Protocol::Vcp, gated: false }
    );
}

#[test]
fn guessing_too_often_closes_the_connection() {
    let mut metrics = ServerMetrics::default();
    let mut conn = Connection::open(true, limits());
    conn.auth.fail();
    assert!(!conn.drained(&mut metrics, true, 10));
    conn.auth.fail();
    assert!(conn.drained(&mut metrics, true, 5));
    assert_eq!(metrics.outcomes.bytes_written, 15);
    let calm = Connection::open(false, limits());
    assert!(calm.drained(&mut metrics, false, 0));
    conn.timed_out(&mut metrics);
    assert_eq!(metrics.auth_timeouts, 1);
}

#[test]
fn a_command_is_a_read_or_one_write_of_a_batch_or_neither() {
    let key = Key::new(b"k", 250).unwrap();
    let set = || {
        Command::SetOne(SetRequest {
            key,
            value: b"v",
            ttl: TtlChange::To(0),
            mc_flags: 0,
            tags: Vec::new(),
            mode: SetMode::Always,
            return_previous: false,
        })
    };
    let get = Parsed {
        command: Command::GetMany(vec![key]),
        style: ResponseStyle::Retrieval { with_cas: false },
        noreply: false,
    };
    assert_eq!(memcached_kind(&get, false), RunKind::Reads);
    let store = Parsed { command: set(), style: ResponseStyle::Storage, noreply: false };
    assert_eq!(memcached_kind(&store, true), RunKind::Writes);
    assert_eq!(memcached_kind(&store, false), RunKind::Other);
    let meta = Parsed { command: set(), style: ResponseStyle::Meta, noreply: false };
    assert_eq!(memcached_kind(&meta, true), RunKind::Other);

    assert_eq!(resp_kind(&RespCommand::Get { key: b"k" }, false), RunKind::Reads);
    let append = RespCommand::Append { key: b"k", value: b"v" };
    assert_eq!(resp_kind(&append, true), RunKind::Writes);
    assert_eq!(resp_kind(&append, false), RunKind::Other);
}

#[test]
fn one_credential_table_serves_every_dialect() {
    let table = Auth::for_test(true, "api", b"hunter2hunter2hu");
    for (secret, good) in [(&b"hunter2hunter2hu"[..], true), (&b"nope"[..], false)] {
        let mut metrics = ServerMetrics::default();
        let mut conn = ConnAuth::default();
        let status = execute_auth(&mut metrics, &mut conn, &table, 0, b"api", secret);
        assert_eq!(status == Status::Success, good);
        assert_eq!(conn.is_authenticated(), good);

        let mut conn = ConnAuth::default();
        let presented = Presented { name: Some(b"api"), secret };
        assert_eq!(run_auth(&mut metrics, &mut conn, &table, &presented).is_ok(), good);
        assert_eq!(conn.is_authenticated(), good);

        let mut conn = ConnAuth::default();
        let block = [&b"api "[..], secret].concat();
        let parsed = Parsed {
            command: Command::SetOne(SetRequest {
                key: Key::new(b"api", 250).unwrap(),
                value: &block,
                ttl: TtlChange::To(0),
                mc_flags: 0,
                tags: Vec::new(),
                mode: SetMode::Always,
                return_previous: false,
            }),
            style: ResponseStyle::Storage,
            noreply: false,
        };
        let (answer, _) = execute_unauthenticated(&mut metrics, &mut conn, &table, &parsed);
        assert_eq!(matches!(answer, Answer::Authenticated), good);
        assert_eq!(conn.is_authenticated(), good);
    }
}
