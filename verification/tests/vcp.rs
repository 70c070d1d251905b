use vash_server::auth::{Auth, ConnAuth};
use vash_server::dispatch::Failed;
use vash_server::domain::{Command, Key, Reply, Status};
use vash_server::metrics::ServerMetrics;
use vash_server::vcp::{
    execute_auth, executed_answer, fused_answer, fused_get, header_refusal, refuse,
    undecoded_answer, Answer, ErrorFrame, Refused, Undecoded, Wire, HEADER_LEN, OPCODE_HELLO,
};

const SECRET: &[u8] = b"hunter2hunter2hu";
const WIRE: Wire = Wire { auth: 0x20, no_reply: 0x01 };

fn frame(opcode: u8, flags: u8, id: u32) -> Vec<u8> {
    let mut bytes = vec![opcode, flags, 0, 0];
    bytes.extend(id.to_le_bytes());
    bytes.resize(HEADER_LEN, 0);
    bytes
}

#[test]
fn only_a_handshake_and_a_credential_get_past_the_header() {
    assert_eq!(header_refusal(&WIRE, true, &frame(OPCODE_HELLO, 0, 1)), None);
    assert_eq!(header_refusal(&WIRE, true, &frame(WIRE.auth, 0, 1)), None);
    assert_eq!(header_refusal(&WIRE, false, &frame(0x10, 0, 1)), None);
    assert_eq!(
        header_refusal(&WIRE, true, &frame(0xee, 0x81, 0x0403_0201)),
        Some(Refused { opcode: 0xee, request_id: 0x0403_0201, no_reply: true })
    );
    assert_eq!(
        header_refusal(&WIRE, true, &frame(0x10, 0x80, u32::MAX)),
        Some(Refused { opcode: 0x10, request_id: u32::MAX, no_reply: false })
    );
    // Short of a header there is nothing to refuse with.
    assert_eq!(header_refusal(&WIRE, true, &frame(0x10, 0, 1)[..HEADER_LEN - 1]), None);
}

#[test]
fn a_refusal_is_silent_where_silence_was_asked_for() {
    let mut metrics = ServerMetrics::default();
    let loud = Refused { opcode: 2, request_id: 3, no_reply: false };
    assert_eq!(refuse(&mut metrics, &loud), Answer::Error(Status::Unauthorized));
    let quiet = Refused { no_reply: true, ..loud };
    assert_eq!(refuse(&mut metrics, &quiet), Answer::Nothing);
    assert_eq!(metrics.auth_refused, 2);
}

#[test]
fn only_a_read_with_a_reply_is_fused() {
    let key = Key::new(b"k", 250).unwrap();
    assert!(fused_get(&Command::Get { key }, false).is_some());
    assert!(fused_get(&Command::Get { key }, true).is_none());
    assert!(fused_get(&Command::Delete { key }, false).is_none());
    assert_eq!(fused_answer(Ok(true)), Answer::Nothing);
    assert_eq!(fused_answer(Ok(false)), Answer::Miss);
    assert_eq!(
        fused_answer(Err(Failed::status(Status::Overloaded))),
        Answer::Error(Status::Overloaded)
    );
}

#[test]
fn a_request_that_wants_no_reply_gets_none() {
    assert_eq!(executed_answer(false, &Ok(Reply::Pong)), Answer::Reply);
    assert_eq!(executed_answer(true, &Ok(Reply::Pong)), Answer::Nothing);
    let failed = Err(Failed::status(Status::TooLarge));
    assert_eq!(executed_answer(false, &failed), Answer::Error(Status::TooLarge));
    assert_eq!(executed_answer(true, &failed), Answer::Nothing);
}

#[test]
fn a_body_that_does_not_decode_is_answered_by_its_header() {
    let body = |opcode| Undecoded::Body { request_id: 9, opcode, status: Status::BadRequest };
    let error = |opcode| Some(ErrorFrame { opcode, request_id: 9, status: Status::BadRequest });
    assert_eq!(undecoded_answer(&WIRE, &frame(4, 0, 9), body(4)), error(4));
    assert_eq!(undecoded_answer(&WIRE, &frame(4, 0x80, 9), body(4)), error(4));
    assert_eq!(
        undecoded_answer(&WIRE, &[], Undecoded::Unframed),
        Some(ErrorFrame { opcode: 0, request_id: 0, status: Status::Internal })
    );
}

#[test]
fn a_body_that_does_not_decode_is_silent_where_silence_was_asked_for() {
    let body = |opcode| Undecoded::Body { request_id: 9, opcode, status: Status::BadRequest };
    assert_eq!(undecoded_answer(&WIRE, &frame(4, 0x01, 9), body(4)), None);
    assert_eq!(undecoded_answer(&WIRE, &frame(4, 0x81, 9), body(4)), None);
    // A credential is always answered.
    assert_eq!(
        undecoded_answer(&WIRE, &frame(WIRE.auth, 0x01, 9), body(WIRE.auth)),
        Some(ErrorFrame { opcode: WIRE.auth, request_id: 9, status: Status::BadRequest })
    );
    // Short of a header nothing was asked for.
    let short = &frame(4, 0x01, 9)[..HEADER_LEN - 1];
    assert!(undecoded_answer(&WIRE, short, body(4)).is_some());
}

#[test]
fn an_unknown_mechanism_is_not_a_wrong_credential() {
    let table = Auth::for_test(true, "default", SECRET);
    let mut metrics = ServerMetrics::default();
    let mut conn = ConnAuth::default();
    for mechanism in [1, 2, 255] {
        assert_eq!(
            execute_auth(&mut metrics, &mut conn, &table, mechanism, b"default", SECRET),
            Status::Unsupported
        );
    }
    assert_eq!(conn.failures(), 0);
    assert_eq!(
        execute_auth(&mut metrics, &mut conn, &table, 0, b"default", b"wrong"),
        Status::Unauthorized
    );
    assert_eq!(conn.failures(), 1);
    // An attempt that names nobody is the default identity's.
    assert_eq!(
        execute_auth(&mut metrics, &mut conn, &table, 0, b"", SECRET),
        Status::Success
    );
    assert_eq!(conn.identity().unwrap().name(), "default");
    assert_eq!(metrics.commands_total, 5);
}

#[test]
fn a_rejection_says_nothing_of_the_name() {
    let table = Auth::for_test(true, "api", SECRET);
    let mut metrics = ServerMetrics::default();
    let mut conn = ConnAuth::default();
    let bad_secret = execute_auth(&mut metrics, &mut conn, &table, 0, b"api", b"nope");
    let bad_name = execute_auth(&mut metrics, &mut conn, &table, 0, b"nobody", SECRET);
    assert_eq!(bad_secret, Status::Unauthorized);
    assert_eq!(bad_name, bad_secret);
    assert_eq!(conn.failures(), 2);
}
