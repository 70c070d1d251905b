//! The native protocol: the pre-authentication gate, the `AUTH` exchange, and
//! what each request is answered with.
use crate::auth;
use crate::auth::{Auth, ConnAuth, Mechanism, DEFAULT_NAME};
use crate::dispatch::Failed;
use crate::domain::{Command, Key, Reply, Status};
use crate::metrics::ServerMetrics;
use vstd::prelude::*;
use vstd::utf8::*;

verus! {

/// Length of a frame header. The opcode is its first byte, the flags its second,
/// and the request id its bytes four to eight, least significant first.
pub const HEADER_LEN: usize = 12;

/// The opcode every connection opens with.
pub const OPCODE_HELLO: u8 = 0x01;

/// The wire values that a header is read by.
#[derive(Debug, Clone, Copy)]
pub struct Wire {
    /// The opcode of `AUTH`.
    pub auth: u8,
    /// The flag of a request that wants no reply.
    pub no_reply: u8,
}

/// Enough of a refused frame's header to answer it.
#[derive(Debug, Clone, Copy, PartialEq, Eq, Structural)]
pub struct Refused {
    /// The raw byte, echoed so a client can correlate even when the server does
    /// not recognise it.
    pub opcode: u8,
    pub request_id: u32,
    pub no_reply: bool,
}

/// Four bytes as a number, least significant first.
pub open spec fn le32(b: Seq<u8>) -> int {
    b[0] + b[1] * 0x100 + b[2] * 0x1_0000 + b[3] * 0x100_0000
}

/// Whether a frame must be refused because the connection has not authenticated,
/// decided from the header without touching the body.
///
/// `HELLO` is let through and has to be: a connection opens with it. Short of a
/// header there is nothing to refuse with.
pub open spec fn refusal_of(wire: Wire, gated: bool, frame: Seq<u8>) -> Option<Refused> {
    if !gated || frame.len() < HEADER_LEN || frame[0] == OPCODE_HELLO || frame[0] == wire.auth {
        None
    } else {
        Some(
            Refused {
                opcode: frame[0],
                request_id: le32(frame.subrange(4, 8)) as u32,
                no_reply: frame[1] & wire.no_reply != 0,
            },
        )
    }
}

/// Decides from a frame's header whether to refuse it.
pub fn header_refusal(wire: &Wire, gated: bool, frame: &[u8]) -> (refused: Option<Refused>)
    ensures
        refused == refusal_of(*wire, gated, frame@),
{
    if !gated || frame.len() < HEADER_LEN {
        return None;
    }
    let opcode = frame[0];
    if opcode == OPCODE_HELLO || opcode == wire.auth {
        return None;
    }
    let request_id: u32 = frame[4] as u32 + frame[5] as u32 * 0x100 + frame[6] as u32 * 0x1_0000
        + frame[7] as u32 * 0x100_0000;
    Some(Refused { opcode, request_id, no_reply: frame[1] & wire.no_reply != 0 })
}

/// A gated connection gets past its header only with `HELLO` or `AUTH`: every
/// other whole header is refused, whatever its opcode, so nothing is learned of
/// which opcodes this build implements.
pub proof fn only_hello_and_auth_are_let_through(wire: Wire, frame: Seq<u8>)
    requires
        frame.len() >= HEADER_LEN,
        frame[0] != OPCODE_HELLO,
        frame[0] != wire.auth,
    ensures
        refusal_of(wire, true, frame) is Some,
        refusal_of(wire, true, frame)->0.opcode == frame[0],
        refusal_of(wire, false, frame) is None,
{
}

/// What is written back for a frame.
#[derive(Debug, Clone, Copy, PartialEq, Eq, Structural)]
pub enum Answer {
    Nothing,
    /// The reply.
    Reply,
    /// The reply to a key that is not there.
    Miss,
    Error(Status),
}

/// Records a refused frame and says what is written back.
pub fn refuse(metrics: &mut ServerMetrics, refused: &Refused) -> (answer: Answer)
    ensures
        *final(metrics) == old(metrics).with_auth_refused(),
        answer == (if refused.no_reply {
            Answer::Nothing
        } else {
            Answer::Error(Status::Unauthorized)
        }),
        answer == Answer::Nothing <==> refused.no_reply,
        answer != Answer::Reply && answer != Answer::Miss,
{
    metrics.auth_refused();
    if refused.no_reply {
        Answer::Nothing
    } else {
        Answer::Error(Status::Unauthorized)
    }
}

/// The key of a request that is rendered straight out of the store: a single-key
/// read with somewhere to render to.
pub fn fused_get<'a>(command: &Command<'a>, no_reply: bool) -> (key: Option<Key<'a>>)
    ensures
        key == (match command {
            Command::Get { key } if !no_reply => Some(*key),
            _ => None,
        }),
        key matches Some(one) ==> *command == (Command::Get { key: one }) && !no_reply,
{
    match command {
        Command::Get { key } => if no_reply {
            None
        } else {
            Some(*key)
        },
        _ => None,
    }
}

/// What is written for a read rendered straight out of the store. A hit has
/// already been written.
pub fn fused_answer(rendered: Result<bool, Failed>) -> (answer: Answer)
    ensures
        answer == (match rendered {
            Ok(true) => Answer::Nothing,
            Ok(false) => Answer::Miss,
            Err(failed) => Answer::Error(failed.status),
        }),
        answer == Answer::Miss <==> rendered == Ok::<bool, Failed>(false),
        answer is Error <==> rendered is Err,
{
    match rendered {
        Ok(true) => Answer::Nothing,
        Ok(false) => Answer::Miss,
        Err(failed) => Answer::Error(failed.status),
    }
}

/// What is written for an executed request. A request that wants no reply gets
/// none, whatever became of it.
pub fn executed_answer(no_reply: bool, outcome: &Result<Reply, Failed>) -> (answer: Answer)
    ensures
        answer == (if no_reply {
            Answer::Nothing
        } else {
            match outcome {
                Ok(_) => Answer::Reply,
                Err(failed) => Answer::Error(failed.status),
            }
        }),
        answer == Answer::Nothing <==> no_reply,
        answer == Answer::Reply ==> outcome is Ok,
        answer matches Answer::Error(status) ==> (outcome matches Err(failed) && failed.status
            == status),
{
    if no_reply {
        return Answer::Nothing;
    }
    match outcome {
        Ok(_) => Answer::Reply,
        Err(failed) => Answer::Error(failed.status),
    }
}

/// A frame that did not decode.
#[derive(Debug, Clone, Copy)]
pub enum Undecoded {
    /// A body the decoder rejected, with what it says of it.
    Body { request_id: u32, opcode: u8, status: Status },
    /// Not a whole, valid frame.
    Unframed,
}

/// The header and status a frame that did not decode is answered with.
#[derive(Debug, Clone, Copy, PartialEq, Eq, Structural)]
pub struct ErrorFrame {
    pub opcode: u8,
    pub request_id: u32,
    pub status: Status,
}

/// Whether a frame's header asks for no reply.
pub open spec fn wants_silence(wire: Wire, frame: Seq<u8>) -> bool {
    frame.len() >= HEADER_LEN && frame[1] & wire.no_reply != 0
}

/// The error a frame that did not decode is answered with. A request that wants
/// no reply gets none, but for `AUTH`, which is always answered.
pub open spec fn undecoded_reply(wire: Wire, frame: Seq<u8>, undecoded: Undecoded) -> Option<
    ErrorFrame,
> {
    match undecoded {
        Undecoded::Body { request_id, opcode, status } => if opcode != wire.auth && wants_silence(
            wire,
            frame,
        ) {
            None
        } else {
            Some(ErrorFrame { opcode, request_id, status })
        },
        Undecoded::Unframed => Some(
            ErrorFrame { opcode: 0, request_id: 0, status: Status::Internal },
        ),
    }
}

/// Says what a frame that did not decode is answered with, if anything.
pub fn undecoded_answer(wire: &Wire, frame: &[u8], undecoded: Undecoded) -> (answer: Option<
    ErrorFrame,
>)
    ensures
        answer == undecoded_reply(*wire, frame@, undecoded),
{
    match undecoded {
        Undecoded::Body { request_id, opcode, status } => {
            if opcode != wire.auth && frame.len() >= HEADER_LEN && frame[1] & wire.no_reply != 0 {
                return None;
            }
            Some(ErrorFrame { opcode, request_id, status })
        },
        Undecoded::Unframed => Some(
            ErrorFrame { opcode: 0, request_id: 0, status: Status::Internal },
        ),
    }
}

/// Nothing is written for a request that wants no reply, unless it is an `AUTH`:
/// not where it is refused, and not where its body does not decode.
pub proof fn a_request_that_wants_no_reply_gets_none(
    wire: Wire,
    gated: bool,
    frame: Seq<u8>,
    request_id: u32,
    opcode: u8,
    status: Status,
)
    requires
        wants_silence(wire, frame),
        opcode != wire.auth,
    ensures
        refusal_of(wire, gated, frame) matches Some(refused) ==> refused.no_reply,
        undecoded_reply(wire, frame, Undecoded::Body { request_id, opcode, status }) is None,
{
}

/// The name an attempt is made under: the default one where it names none.
pub open spec fn attempted_name(name: Seq<u8>) -> Seq<u8> {
    if name.len() == 0 {
        encode_utf8(DEFAULT_NAME@)
    } else {
        name
    }
}

/// What an attempt is answered with.
///
/// A mechanism this server does not have is `Unsupported` rather than
/// `Unauthorized`, so a client can tell "this mechanism does not exist here"
/// from "your credential is wrong".
pub open spec fn auth_status(
    policy: auth::Policy,
    mechanism: u8,
    name: Seq<u8>,
    secret: Seq<u8>,
) -> Status {
    if mechanism != 0 {
        Status::Unsupported
    } else if policy.accepts(attempted_name(name), secret) {
        Status::Success
    } else {
        Status::Unauthorized
    }
}

/// Two attempts that fail are answered alike, whether it was the name or the
/// secret that was wrong: the answer does not confirm which names exist.
pub proof fn a_rejection_does_not_say_why(
    policy: auth::Policy,
    name: Seq<u8>,
    secret: Seq<u8>,
    other_name: Seq<u8>,
    other_secret: Seq<u8>,
)
    requires
        !policy.accepts(attempted_name(name), secret),
        !policy.accepts(attempted_name(other_name), other_secret),
    ensures
        auth_status(policy, 0, name, secret) == auth_status(policy, 0, other_name, other_secret),
{
}

/// Answers an `AUTH` frame.
pub fn execute_auth(
    metrics: &mut ServerMetrics,
    conn: &mut ConnAuth,
    table: &Auth,
    mechanism: u8,
    name: &[u8],
    secret: &[u8],
) -> (status: Status)
    requires
        table.wf(),
    ensures
        status == auth_status(table@, mechanism, name@, secret@),
        *final(metrics) == (match status {
            Status::Success => old(metrics).with_other().with_auth_ok(),
            Status::Unauthorized => old(metrics).with_other().with_auth_failed(),
            _ => old(metrics).with_other(),
        }),
        match status {
            Status::Success => {
                &&& final(conn).who() is Some
                &&& encode_utf8(final(conn).who()->0) == attempted_name(name@)
                &&& final(conn).failure_count() == old(conn).failure_count()
            },
            Status::Unauthorized => {
                &&& final(conn).who() == old(conn).who()
                &&& final(conn).failure_count() == auth::one_more(old(conn).failure_count())
            },
            _ => *final(conn) == *old(conn),
        },
{
    metrics.other();
    match Mechanism::from_u8(mechanism) {
        Some(Mechanism::Plain) => {},
        _ => {
            return Status::Unsupported;
        },
    }
    let name: &[u8] = if name.len() == 0 {
        DEFAULT_NAME.as_bytes()
    } else {
        name
    };
    match table.verify(name, secret) {
        Some(identity) => {
            conn.succeed(identity);
            metrics.auth_ok();
            Status::Success
        },
        None => {
            conn.fail();
            metrics.auth_failed();
            Status::Unauthorized
        },
    }
}

/// A refusal answers the request it refuses: it bears the opcode and the id of its
/// header, whatever they are.
pub proof fn a_refusal_bears_the_id_of_its_request(wire: Wire, frame: Seq<u8>, id: u32)
    requires
        frame.len() >= HEADER_LEN,
        frame[4] == id % 0x100,
        frame[5] == id / 0x100 % 0x100,
        frame[6] == id / 0x1_0000 % 0x100,
        frame[7] == id / 0x100_0000,
    ensures
        refusal_of(wire, true, frame) matches Some(refused) ==> refused.opcode == frame[0]
            && refused.request_id == id && refused.no_reply == wants_silence(wire, frame),
{
}

/// A frame that did not decode is answered under its own opcode and id, with what the
/// decoder says of it; an `AUTH` always is.
pub proof fn a_broken_body_is_answered_under_its_header(
    wire: Wire,
    frame: Seq<u8>,
    request_id: u32,
    opcode: u8,
    status: Status,
)
    ensures
        ({
            let answer = undecoded_reply(
                wire,
                frame,
                Undecoded::Body { request_id, opcode, status },
            );
            &&& answer matches Some(error) ==> error.opcode == opcode && error.request_id
                == request_id && error.status == status
            &&& answer is Some <==> opcode == wire.auth || !wants_silence(wire, frame)
        }),
{
}

/// Nobody gets in but with a secret that the table accepts over the one mechanism
/// there is. An attempt that names nobody is one under the default name, and a
/// mechanism that is not there is no wrong credential.
pub proof fn only_an_accepted_secret_gets_in(
    policy: auth::Policy,
    mechanism: u8,
    name: Seq<u8>,
    secret: Seq<u8>,
)
    ensures
        auth_status(policy, mechanism, name, secret) == Status::Success ==> mechanism == 0 && (
        policy.accepts(name, secret) || name.len() == 0 && policy.accepts(
            encode_utf8(DEFAULT_NAME@),
            secret,
        )),
        name.len() > 0 && policy.accepts(name, secret) ==> auth_status(policy, 0, name, secret)
            == Status::Success,
        auth_status(policy, 0, Seq::empty(), secret) == Status::Success <==> policy.accepts(
            encode_utf8(DEFAULT_NAME@),
            secret,
        ),
        mechanism != 0 ==> auth_status(policy, mechanism, name, secret) == Status::Unsupported,
        mechanism == 0 ==> auth_status(policy, mechanism, name, secret) == Status::Success
            || auth_status(policy, mechanism, name, secret) == Status::Unauthorized,
{
}

} // verus!
