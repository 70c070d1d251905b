//! Redis commands: a codec's decisions, not an executor.
//!
//! Every command that touches storage is translated into a domain command,
//! executed where every dialect's commands are, and rendered back. Commands about
//! the conversation (`HELLO`, `AUTH`, `QUIT`) never reach that boundary.
//!
//! Several Redis commands collapse onto one domain operation: `EXISTS`, `TYPE`
//! and `TTL` are all deadline queries that differ only in how the answer is
//! worded, and `PERSIST` is an `EXPIRE` with a guard.
use crate::auth;
use crate::auth::{Auth, ConnAuth, DEFAULT_NAME};
use crate::dispatch::Failed;
use crate::domain;
use crate::domain::{
    Arithmetic, BatchGuard, Command, CoreError, Deadline, Delta, ExpireGuard, FloatBound, Key,
    ListEntry, ListRequest, Listing, Missing, Number, OnBound, Reply, SetMode, SetRequest, Status,
    Stored, TtlChange, MAX_TTL_SECS, TTL_ALREADY_EXPIRED,
};
use crate::metrics::{ErrorClass, ServerMetrics};
use crate::scan;
use crate::scan::ScanCursors;
use vstd::prelude::*;
use vstd::utf8::*;

verus! {

/// The negotiated dialect. A connection starts at `Resp2`.
#[derive(Debug, Clone, Copy, PartialEq, Eq, Structural)]
pub enum Version {
    Resp2,
    Resp3,
}

impl Default for Version {
    fn default() -> (version: Self)
        ensures
            version == Version::Resp2,
    {
        Version::Resp2
    }
}

/// Under what condition a write applies.
#[derive(Debug, Clone, Copy, PartialEq, Eq, Structural)]
pub enum Condition {
    Always,
    IfAbsent,
    IfPresent,
}

/// Under what condition an expiry applies.
#[derive(Debug, Clone, Copy, PartialEq, Eq, Structural)]
pub enum ExpireCondition {
    Always,
    IfPersistent,
    IfVolatile,
    IfLater,
    IfEarlier,
}

/// An expiry option. Milliseconds, from now or since the epoch.
#[derive(Debug, Clone, Copy, PartialEq, Eq, Structural)]
pub enum Expiry {
    Unset,
    Keep,
    Persist,
    After(i64),
    At(i64),
}

/// An increment. A float is held as its bit pattern.
#[derive(Debug, Clone, Copy, PartialEq, Eq, Structural)]
pub enum Increment {
    Int(i64),
    Float(u64),
}

/// A credential as it was presented.
#[derive(Debug, Clone, Copy)]
pub struct Presented<'a> {
    pub name: Option<&'a [u8]>,
    pub secret: &'a [u8],
}

/// `SET` and its options.
#[derive(Debug, Clone, Copy)]
pub struct RespSet<'a> {
    pub key: &'a [u8],
    pub value: &'a [u8],
    pub condition: Condition,
    pub expiry: Expiry,
    pub return_previous: bool,
}

/// One key and its value.
#[derive(Debug, Clone, Copy)]
pub struct Pair<'a> {
    pub key: &'a [u8],
    pub value: &'a [u8],
}

/// `INCREX` and its options.
#[derive(Debug, Clone, Copy)]
pub struct IncrEx<'a> {
    pub key: &'a [u8],
    pub delta: Increment,
    pub lower: Option<Increment>,
    pub upper: Option<Increment>,
    pub saturate: bool,
    pub expiry: Option<Expiry>,
    pub only_if_persistent: bool,
}

/// `SCAN` and its options.
#[derive(Debug, Clone, Copy)]
pub struct Scan<'a> {
    pub token: u64,
    pub count: usize,
    pub pattern: &'a [u8],
    /// Whether the type asked for is the one type there is.
    pub only_strings: bool,
}

/// A parsed Redis command.
#[allow(inconsistent_fields)]
#[derive(Debug)]
pub enum RespCommand<'a> {
    Ping { message: Option<&'a [u8]> },
    Get { key: &'a [u8] },
    MGet { keys: Vec<&'a [u8]> },
    Exists { keys: Vec<&'a [u8]> },
    Type { key: &'a [u8] },
    Ttl { key: &'a [u8] },
    Delete { keys: Vec<&'a [u8]> },
    SetOne(RespSet<'a>),
    MSet { pairs: Vec<Pair<'a>> },
    MSetEx { pairs: Vec<Pair<'a>>, condition: Condition, expiry: Expiry },
    Append { key: &'a [u8], value: &'a [u8] },
    Expire { key: &'a [u8], expiry: Expiry, condition: ExpireCondition },
    Persist { key: &'a [u8] },
    Incr { key: &'a [u8], delta: Increment },
    IncrEx(IncrEx<'a>),
    Info,
    Scan(Scan<'a>),
    Quit,
    Auth(Presented<'a>),
    Hello { version: Option<i64>, auth: Option<Presented<'a>> },
}

/// Whether a command can be answered without any chance of writing.
///
/// Every arithmetic command rewrites its key, and so does `APPEND`, despite both
/// reading first. `SCAN` walks more than a network worker should be held for.
pub open spec fn reads_only(command: RespCommand) -> bool {
    match command {
        RespCommand::Get { .. } | RespCommand::MGet { .. } | RespCommand::Exists { .. }
        | RespCommand::Type { .. } | RespCommand::Ttl { .. } | RespCommand::Ping { .. }
        | RespCommand::Hello { .. } | RespCommand::Auth(_) | RespCommand::Quit
        | RespCommand::Info => true,
        _ => false,
    }
}

/// Whether a command may run on a network worker.
pub fn inline_safe(command: &RespCommand) -> (yes: bool)
    ensures
        yes == reads_only(*command),
{
    match command {
        RespCommand::Get { .. } | RespCommand::MGet { .. } | RespCommand::Exists { .. }
        | RespCommand::Type { .. } | RespCommand::Ttl { .. } | RespCommand::Ping { .. }
        | RespCommand::Hello { .. } | RespCommand::Auth(_) | RespCommand::Quit
        | RespCommand::Info => true,
        _ => false,
    }
}

/// A command that could not be answered: the wire error, and how it is counted.
///
/// What the shared executor saw was counted there; counting it again would
/// double it.
#[derive(Debug, Clone, Copy)]
pub struct Failure {
    pub code: &'static str,
    pub message: &'static str,
    pub class: ErrorClass,
    pub counted: bool,
}

/// What a failure says, and how it is counted.
#[verifier::ext_equal]
pub struct Fault {
    pub code: Seq<char>,
    pub message: Seq<char>,
    pub class: ErrorClass,
    pub counted: bool,
}

impl View for Failure {
    type V = Fault;

    open spec fn view(&self) -> Fault {
        Fault {
            code: self.code@,
            message: self.message@,
            class: self.class,
            counted: self.counted,
        }
    }
}

impl Fault {
    /// A client error raised before the command reached the executor.
    pub open spec fn client(message: Seq<char>) -> Fault {
        Fault { code: "ERR"@, message, class: ErrorClass::Client, counted: false }
    }

    /// A client error the executor already counted.
    pub open spec fn executed(message: Seq<char>) -> Fault {
        Fault { counted: true, ..Fault::client(message) }
    }

    /// A command translated into a reply it cannot render.
    pub open spec fn internal() -> Fault {
        Fault {
            code: "ERR"@,
            message: "internal error"@,
            class: ErrorClass::Internal,
            counted: false,
        }
    }
}

impl Failure {
    /// A failure raised here, before the command reached the executor.
    pub fn client(message: &'static str) -> (failure: Self)
        ensures
            failure@ == Fault::client(message@),
    {
        Failure { code: "ERR", message, class: ErrorClass::Client, counted: false }
    }

    /// A client error the executor already counted.
    pub fn executed(message: &'static str) -> (failure: Self)
        ensures
            failure@ == Fault::executed(message@),
    {
        Failure { code: "ERR", message, class: ErrorClass::Client, counted: true }
    }

    /// A logic slip: never anything a client can provoke.
    pub fn internal() -> (failure: Self)
        ensures
            failure@ == Fault::internal(),
    {
        Failure {
            code: "ERR",
            message: "internal error",
            class: ErrorClass::Internal,
            counted: false,
        }
    }
}

/// Counts a failure that nothing has counted yet.
pub fn count_failure(metrics: &mut ServerMetrics, failure: &Failure)
    ensures
        *final(metrics) == (if failure.counted {
            *old(metrics)
        } else {
            old(metrics).with_other().with_error(failure.class)
        }),
{
    if !failure.counted {
        metrics.other();
        metrics.error(failure.class);
    }
}

/// Counts a command that did not parse.
pub fn count_unparsed(metrics: &mut ServerMetrics)
    ensures
        *final(metrics) == old(metrics).with_other().with_error(ErrorClass::Client),
{
    metrics.other();
    metrics.error(ErrorClass::Client);
}

/// What a bare `HELLO` is told on a connection that must authenticate.
pub open spec fn hello_unauthenticated() -> Seq<char> {
    "HELLO must be called with the client already authenticated, otherwise the HELLO <proto> AUTH <user> <pass> option can be used to authenticate the client and select the RESP protocol version at the same time"@
}

/// Why a command of a connection that must authenticate is refused, if it is.
///
/// `AUTH`, `QUIT` and a `HELLO` that carries a credential are let through. A
/// bare `HELLO` is not.
pub open spec fn refusal_of(gated: bool, command: RespCommand) -> Option<Fault> {
    if !gated {
        None
    } else {
        let noauth = |message: Seq<char>|
            Fault { code: "NOAUTH"@, message, class: ErrorClass::Client, counted: false };
        match command {
            RespCommand::Auth(_) | RespCommand::Quit => None,
            RespCommand::Hello { auth: Some(_), .. } => None,
            RespCommand::Hello { auth: None, .. } => Some(noauth(hello_unauthenticated())),
            _ => Some(noauth("Authentication required."@)),
        }
    }
}

/// Whether a Redis command must be refused for want of authentication.
pub fn refusal(gated: bool, command: &RespCommand) -> (failure: Option<Failure>)
    ensures
        match (failure, refusal_of(gated, *command)) {
            (Some(failure), Some(fault)) => failure@ == fault,
            (None, None) => true,
            _ => false,
        },
{
    if !gated {
        return None;
    }
    match command {
        RespCommand::Auth(_) | RespCommand::Quit => None,
        RespCommand::Hello { auth: Some(_), .. } => None,
        RespCommand::Hello { auth: None, .. } => Some(
            Failure {
                code: "NOAUTH",
                message:
                    "HELLO must be called with the client already authenticated, otherwise the HELLO <proto> AUTH <user> <pass> option can be used to authenticate the client and select the RESP protocol version at the same time",
                class: ErrorClass::Client,
                counted: false,
            },
        ),
        _ => Some(
            Failure {
                code: "NOAUTH",
                message: "Authentication required.",
                class: ErrorClass::Client,
                counted: false,
            },
        ),
    }
}

/// Records a refused command.
pub fn count_refused(metrics: &mut ServerMetrics, failure: &Failure)
    ensures
        *final(metrics) == old(metrics).with_auth_refused().with_other().with_error(failure.class),
{
    metrics.auth_refused();
    metrics.other();
    metrics.error(failure.class);
}

/// What an authentication comes to.
pub enum Login {
    /// There is nothing here to authenticate against.
    NothingConfigured,
    Accepted,
    Rejected,
}

/// The name a credential is presented under: the default one where it names
/// none.
pub open spec fn presented_name(credential: Presented) -> Seq<u8> {
    match credential.name {
        Some(name) => name@,
        None => encode_utf8(DEFAULT_NAME@),
    }
}

/// What presenting a credential comes to.
pub open spec fn login_of(policy: auth::Policy, credential: Presented) -> Login {
    if policy.table.dom() =~= Set::empty() {
        Login::NothingConfigured
    } else if policy.accepts(presented_name(credential), credential.secret@) {
        Login::Accepted
    } else {
        Login::Rejected
    }
}

/// What an authentication is answered with.
///
/// One message for a bad name and a bad secret alike, so the error does not
/// confirm which names exist; another where no credential exists at all.
pub open spec fn login_fault(login: Login) -> Option<Fault> {
    match login {
        Login::Accepted => None,
        Login::NothingConfigured => Some(
            Fault::client(
                "AUTH <password> called without any password configured for the default user. Are you sure your configuration is correct?"@,
            ),
        ),
        Login::Rejected => Some(
            Fault {
                code: "WRONGPASS"@,
                message: "invalid username-password pair or user is disabled."@,
                class: ErrorClass::Client,
                counted: false,
            },
        ),
    }
}

/// Two credentials that fail are answered alike, whether it was the name or the
/// secret that was wrong: the answer does not confirm which names exist.
pub proof fn a_rejection_does_not_say_why(
    policy: auth::Policy,
    credential: Presented,
    other: Presented,
)
    requires
        login_of(policy, credential) !is Accepted,
        login_of(policy, other) !is Accepted,
    ensures
        login_fault(login_of(policy, credential)) == login_fault(login_of(policy, other)),
{
}

/// Whether a connection is what an authentication leaves of it.
pub open spec fn login_leaves(
    login: Login,
    credential: Presented,
    before: ConnAuth,
    after: ConnAuth,
) -> bool {
    match login {
        Login::NothingConfigured => after == before,
        Login::Accepted => {
            &&& after.who() is Some
            &&& encode_utf8(after.who()->0) == presented_name(credential)
            &&& after.failure_count() == before.failure_count()
        },
        Login::Rejected => {
            &&& after.who() == before.who()
            &&& after.failure_count() == auth::one_more(before.failure_count())
        },
    }
}

/// The counters an authentication leaves.
pub open spec fn login_counts(login: Login, m: ServerMetrics) -> ServerMetrics {
    match login {
        Login::NothingConfigured => m,
        Login::Accepted => m.with_auth_ok(),
        Login::Rejected => m.with_auth_failed(),
    }
}

/// Verifies a Redis credential and records the outcome.
pub fn authenticate(
    metrics: &mut ServerMetrics,
    conn: &mut ConnAuth,
    table: &Auth,
    credential: &Presented,
) -> (answered: Result<(), Failure>)
    requires
        table.wf(),
    ensures
        ({
            let login = login_of(table@, *credential);
            &&& login_leaves(login, *credential, *old(conn), *final(conn))
            &&& *final(metrics) == login_counts(login, *old(metrics))
            &&& match (answered, login_fault(login)) {
                (Ok(_), None) => true,
                (Err(failure), Some(fault)) => failure@ == fault,
                _ => false,
            }
        }),
{
    if !table.configured() {
        return Err(
            Failure::client(
                "AUTH <password> called without any password configured for the default user. Are you sure your configuration is correct?",
            ),
        );
    }
    let name: &[u8] = match credential.name {
        Some(name) => name,
        None => DEFAULT_NAME.as_bytes(),
    };
    match table.verify(name, credential.secret) {
        Some(identity) => {
            conn.succeed(identity);
            metrics.auth_ok();
            Ok(())
        },
        None => {
            conn.fail();
            metrics.auth_failed();
            Err(
                Failure {
                    code: "WRONGPASS",
                    message: "invalid username-password pair or user is disabled.",
                    class: ErrorClass::Client,
                    counted: false,
                },
            )
        },
    }
}

/// Answers `AUTH`.
pub fn run_auth(
    metrics: &mut ServerMetrics,
    conn: &mut ConnAuth,
    table: &Auth,
    credential: &Presented,
) -> (answered: Result<(), Failure>)
    requires
        table.wf(),
    ensures
        ({
            let login = login_of(table@, *credential);
            &&& login_leaves(login, *credential, *old(conn), *final(conn))
            &&& *final(metrics) == login_counts(login, old(metrics).with_other())
            &&& match (answered, login_fault(login)) {
                (Ok(_), None) => true,
                (Err(failure), Some(fault)) => failure@ == fault,
                _ => false,
            }
        }),
{
    metrics.other();
    authenticate(metrics, conn, table, credential)
}

/// The dialect a `HELLO` asks for.
pub open spec fn negotiated(requested: Option<i64>, current: Version) -> Option<Version> {
    match requested {
        None => Some(current),
        Some(2) => Some(Version::Resp2),
        Some(3) => Some(Version::Resp3),
        Some(_) => None,
    }
}

/// Answers `HELLO`.
///
/// Three steps, in an order that is observable: the version is validated before
/// the credential is looked at, the credential is verified before the version
/// applies, and a refusal leaves the version as it was.
pub fn run_hello(
    metrics: &mut ServerMetrics,
    conn: &mut ConnAuth,
    table: &Auth,
    requested: Option<i64>,
    credential: Option<Presented>,
    version: &mut Version,
) -> (answered: Result<(), Failure>)
    requires
        table.wf(),
    ensures
        match negotiated(requested, *old(version)) {
            None => {
                &&& answered is Err
                &&& answered->Err_0@ == (Fault {
                    code: "NOPROTO"@,
                    message: "unsupported protocol version"@,
                    class: ErrorClass::Client,
                    counted: false,
                })
                &&& *final(version) == *old(version)
                &&& *final(conn) == *old(conn)
                &&& *final(metrics) == old(metrics).with_other()
            },
            Some(chosen) => match credential {
                None => {
                    &&& answered is Ok
                    &&& *final(version) == chosen
                    &&& *final(conn) == *old(conn)
                    &&& *final(metrics) == old(metrics).with_other()
                },
                Some(presented) => {
                    let login = login_of(table@, presented);
                    &&& login_leaves(login, presented, *old(conn), *final(conn))
                    &&& *final(metrics) == login_counts(login, old(metrics).with_other())
                    &&& match (answered, login_fault(login)) {
                        (Ok(_), None) => *final(version) == chosen,
                        (Err(failure), Some(fault)) => failure@ == fault && *final(version) == *old(
                            version,
                        ),
                        _ => false,
                    }
                },
            },
        },
{
    metrics.other();
    let chosen = match requested {
        None => *version,
        Some(n) => if n == 2 {
            Version::Resp2
        } else if n == 3 {
            Version::Resp3
        } else {
            return Err(
                Failure {
                    code: "NOPROTO",
                    message: "unsupported protocol version",
                    class: ErrorClass::Client,
                    counted: false,
                },
            );
        },
    };
    if let Some(presented) = credential {
        match authenticate(metrics, conn, table, &presented) {
            Ok(_) => {},
            Err(failure) => {
                return Err(failure);
            },
        }
    }
    *version = chosen;
    Ok(())
}

/// The error a Redis client expects for a classified failure.
///
/// The cause is consulted first because Redis draws distinctions the statuses do
/// not.
pub open spec fn fault_of(failed: Failed) -> Fault {
    match failed.cause {
        Some(CoreError::NotAnInteger) => Fault::executed(
            "value is not an integer or out of range"@,
        ),
        Some(CoreError::NotAFloat) => Fault::executed("value is not a valid float"@),
        Some(CoreError::Overflow) => Fault::executed("increment or decrement would overflow"@),
        Some(CoreError::NotFinite) => Fault::executed("increment would produce NaN or Infinity"@),
        Some(CoreError::EmptyKey) | Some(CoreError::KeyTooLong) => Fault::executed("invalid key"@),
        Some(CoreError::ValueTooLarge) => Fault::executed("string exceeds maximum allowed size"@),
        _ => match failed.status {
            Status::CapacityFull => Fault {
                code: "OOM"@,
                message: "command not allowed when used memory > 'maxmemory'"@,
                class: ErrorClass::Capacity,
                counted: true,
            },
            Status::Overloaded => Fault {
                code: "ERR"@,
                message: "server is overloaded, try again"@,
                class: ErrorClass::Overloaded,
                counted: true,
            },
            Status::Unsupported => Fault::executed("unsupported operation"@),
            Status::Unauthorized => Fault::executed("command disabled by configuration"@),
            Status::Internal => Fault {
                code: "ERR"@,
                message: "internal error"@,
                class: ErrorClass::Internal,
                counted: true,
            },
            _ => Fault::executed("invalid argument"@),
        },
    }
}

/// Maps a classified failure onto the error a Redis client expects.
pub fn resp_error(failed: Failed) -> (failure: Failure)
    ensures
        failure@ == fault_of(failed),
{
    match failed.cause {
        Some(CoreError::NotAnInteger) => {
            return Failure::executed("value is not an integer or out of range");
        },
        Some(CoreError::NotAFloat) => {
            return Failure::executed("value is not a valid float");
        },
        Some(CoreError::Overflow) => {
            return Failure::executed("increment or decrement would overflow");
        },
        Some(CoreError::NotFinite) => {
            return Failure::executed("increment would produce NaN or Infinity");
        },
        Some(CoreError::EmptyKey) | Some(CoreError::KeyTooLong) => {
            return Failure::executed("invalid key");
        },
        Some(CoreError::ValueTooLarge) => {
            return Failure::executed("string exceeds maximum allowed size");
        },
        _ => {},
    }
    match failed.status {
        Status::CapacityFull => Failure {
            code: "OOM",
            message: "command not allowed when used memory > 'maxmemory'",
            class: ErrorClass::Capacity,
            counted: true,
        },
        Status::Overloaded => Failure {
            code: "ERR",
            message: "server is overloaded, try again",
            class: ErrorClass::Overloaded,
            counted: true,
        },
        Status::Unsupported => Failure::executed("unsupported operation"),
        Status::Unauthorized => Failure::executed("command disabled by configuration"),
        Status::Internal => Failure {
            code: "ERR",
            message: "internal error",
            class: ErrorClass::Internal,
            counted: true,
        },
        _ => Failure::executed("invalid argument"),
    }
}

/// Everything a failed execution becomes was already counted where it executed.
pub proof fn an_executed_failure_is_never_counted_twice(failed: Failed)
    ensures
        fault_of(failed).counted,
{
}

/// The lifetime the store is given for a deadline in unix milliseconds, at the
/// time `now`.
///
/// The store's field is whole seconds, so a deadline is rounded to the nearest
/// one, and pushed forward if rounding landed at or before now: a key that
/// vanishes the instant it is written is worse than one that lingers for under a
/// second. A deadline that has passed is the already-expired stamp, and so is one
/// inside the first 30 days of 1970, which would be read back as an offset. The
/// furthest deadline is one second short of the sentinel.
pub open spec fn stamp_of(deadline_ms: i64, now: i64) -> u32 {
    if deadline_ms <= now {
        TTL_ALREADY_EXPIRED
    } else {
        let rounded: int = (if deadline_ms + 500 <= i64::MAX {
            deadline_ms + 500
        } else {
            i64::MAX as int
        }) / 1_000;
        let seconds: int = if rounded * 1_000 <= now {
            now as int / 1_000 + 1
        } else {
            rounded
        };
        if seconds <= MAX_TTL_SECS {
            TTL_ALREADY_EXPIRED
        } else if seconds < u32::MAX {
            seconds as u32
        } else {
            (u32::MAX - 1) as u32
        }
    }
}

/// Converts an absolute deadline in unix milliseconds into the lifetime the
/// store's commands take.
pub fn ttl_from_deadline(deadline_ms: i64, now: i64) -> (ttl: u32)
    ensures
        ttl == stamp_of(deadline_ms, now),
{
    if deadline_ms <= now || deadline_ms < 0 {
        return TTL_ALREADY_EXPIRED;
    }
    let raised: i64 = if deadline_ms <= i64::MAX - 500 {
        deadline_ms + 500
    } else {
        i64::MAX
    };
    let rounded: i64 = raised / 1_000;
    let seconds: i64 = if rounded * 1_000 <= now {
        now / 1_000 + 1
    } else {
        rounded
    };
    if seconds <= MAX_TTL_SECS as i64 {
        return TTL_ALREADY_EXPIRED;
    }
    if seconds < u32::MAX as i64 {
        seconds as u32
    } else {
        u32::MAX - 1
    }
}

/// A deadline in the future is stored as an absolute stamp in the future, within
/// a second of what was asked for, whenever the clock is past the first 30 days
/// of 1970 and the deadline is one the field can express.
pub proof fn a_future_deadline_stays_in_the_future(deadline_ms: i64, now: i64)
    requires
        now >= MAX_TTL_SECS * 1_000,
        now < deadline_ms <= 4_294_967_294_000,
    ensures
        stamp_of(deadline_ms, now) != TTL_ALREADY_EXPIRED,
        stamp_of(deadline_ms, now) > MAX_TTL_SECS,
        stamp_of(deadline_ms, now) * 1_000 > now,
        -1_000 < stamp_of(deadline_ms, now) * 1_000 - deadline_ms <= 1_000,
{
}

/// A deadline that has passed is always stored as already expired.
pub proof fn a_past_deadline_is_already_expired(deadline_ms: i64, now: i64)
    requires
        deadline_ms <= now,
    ensures
        stamp_of(deadline_ms, now) == TTL_ALREADY_EXPIRED,
{
}

/// The answer of `TTL`: -2 for a key that is not there, -1 for one that never
/// expires, and otherwise the remaining time to the nearest second.
pub open spec fn ttl_answer(deadline: Option<Deadline>, now: u64) -> int {
    match deadline {
        None => -2,
        Some(Deadline::Never) => -1,
        Some(Deadline::At(at)) => if at >= now {
            ((at - now + 500) / 1_000)
        } else {
            0
        },
    }
}

fn remaining_secs(deadline: &Option<Deadline>, now: u64) -> (answer: i64)
    ensures
        answer == ttl_answer(*deadline, now),
{
    match deadline {
        None => -2,
        Some(Deadline::Never) => -1,
        Some(Deadline::At(at)) => {
            let remaining: u64 = at.saturating_sub(now);
            ((remaining as u128 + 500) / 1_000) as i64
        },
    }
}

/// A key set to expire in `n` seconds answers `n` to a `TTL` asked at once.
pub proof fn ttl_answers_what_was_set(n: u32, now: u64)
    requires
        n > 0,
        MAX_TTL_SECS * 1_000 <= now,
        now + n * 1_000 <= 4_294_967_294_000,
        now % 1_000 != 500,
    ensures
        ttl_answer(
            Some(
                Deadline::At(
                    (stamp_of((now + n * 1_000) as i64, now as i64) * 1_000) as u64,
                ),
            ),
            now,
        ) == n,
{
}

/// The lifetime an expiry option asks for. An offset that leaves the range of a
/// deadline is refused rather than stored as a different one.
pub open spec fn lifetime_of(expiry: Expiry, now: i64) -> Option<TtlChange> {
    match expiry {
        Expiry::Unset | Expiry::Persist => Some(TtlChange::To(0)),
        Expiry::Keep => Some(TtlChange::Keep),
        Expiry::After(millis) => if i64::MIN <= now + millis <= i64::MAX {
            Some(TtlChange::To(stamp_of((now + millis) as i64, now)))
        } else {
            None
        },
        Expiry::At(millis) => Some(TtlChange::To(stamp_of(millis, now))),
    }
}

/// Translates a Redis expiry option into the store's lifetime vocabulary.
pub fn ttl_change_for(expiry: Expiry, now: i64, invalid_expire: &'static str) -> (change: Result<
    TtlChange,
    Failure,
>)
    ensures
        match (change, lifetime_of(expiry, now)) {
            (Ok(ttl), Some(expected)) => ttl == expected,
            (Err(failure), None) => failure@ == Fault::client(invalid_expire@),
            _ => false,
        },
{
    match expiry {
        Expiry::Unset | Expiry::Persist => Ok(TtlChange::To(0)),
        Expiry::Keep => Ok(TtlChange::Keep),
        Expiry::After(millis) => match now.checked_add(millis) {
            Some(deadline) => Ok(TtlChange::To(ttl_from_deadline(deadline, now))),
            None => Err(Failure::client(invalid_expire)),
        },
        Expiry::At(millis) => Ok(TtlChange::To(ttl_from_deadline(millis, now))),
    }
}

/// Whether some bytes are a key the store can hold.
pub open spec fn valid_key(bytes: &[u8], max: usize) -> bool {
    0 < bytes@.len() <= max
}

fn key_of<'a>(bytes: &'a [u8], max: usize) -> (key: Result<Key<'a>, Failure>)
    ensures
        match key {
            Ok(key) => valid_key(bytes, max) && key == (Key { bytes }),
            Err(failure) => !valid_key(bytes, max) && failure@ == Fault::client("invalid key"@),
        },
{
    match Key::new(bytes, max) {
        Ok(key) => Ok(key),
        Err(_) => Err(Failure::client("invalid key")),
    }
}

/// Whether keys are those of some byte strings, in order.
pub open spec fn keys_match(keys: Seq<Key>, bytes: Seq<&[u8]>) -> bool {
    &&& keys.len() == bytes.len()
    &&& forall|i: int| 0 <= i < keys.len() ==> (#[trigger] keys[i]).bytes == bytes[i]
}

/// Whether every byte string is a valid key.
pub open spec fn all_valid(bytes: Seq<&[u8]>, max: usize) -> bool {
    forall|i: int| 0 <= i < bytes.len() ==> valid_key(#[trigger] bytes[i], max)
}

fn keys_of<'a>(bytes: &Vec<&'a [u8]>, max: usize) -> (keys: Result<Vec<Key<'a>>, Failure>)
    ensures
        match keys {
            Ok(keys) => all_valid(bytes@, max) && keys_match(keys@, bytes@),
            Err(failure) => !all_valid(bytes@, max) && failure@ == Fault::client("invalid key"@),
        },
{
    let mut keys: Vec<Key<'a>> = Vec::new();
    let mut i: usize = 0;
    while i < bytes.len()
        invariant
            i <= bytes@.len(),
            keys@.len() == i,
            forall|j: int| 0 <= j < i ==> (#[trigger] keys@[j]).bytes == bytes@[j],
            forall|j: int| 0 <= j < i ==> valid_key(#[trigger] bytes@[j], max),
        decreases bytes@.len() - i,
    {
        match key_of(bytes[i], max) {
            Ok(key) => {
                keys.push(key);
            },
            Err(failure) => {
                return Err(failure);
            },
        }
        i = i + 1;
    }
    Ok(keys)
}

/// Whether a write is the plain one of a pair, with a lifetime.
pub open spec fn plain_set(set: SetRequest, pair: Pair, ttl: TtlChange) -> bool {
    &&& set.key.bytes == pair.key
    &&& set.value == pair.value
    &&& set.ttl == ttl
    &&& set.mc_flags == 0
    &&& set.tags@.len() == 0
    &&& set.mode == SetMode::Always
    &&& !set.return_previous
}

/// Whether writes are the plain ones of some pairs, in order.
pub open spec fn plain_sets(sets: Seq<SetRequest>, pairs: Seq<Pair>, ttl: TtlChange) -> bool {
    &&& sets.len() == pairs.len()
    &&& forall|i: int| 0 <= i < sets.len() ==> plain_set(#[trigger] sets[i], pairs[i], ttl)
}

/// Whether every pair has a valid key.
pub open spec fn all_pairs_valid(pairs: Seq<Pair>, max: usize) -> bool {
    forall|i: int| 0 <= i < pairs.len() ==> valid_key((#[trigger] pairs[i]).key, max)
}

fn sets_of<'a>(pairs: &Vec<Pair<'a>>, ttl: TtlChange, max: usize) -> (sets: Result<
    Vec<SetRequest<'a>>,
    Failure,
>)
    ensures
        match sets {
            Ok(sets) => all_pairs_valid(pairs@, max) && plain_sets(sets@, pairs@, ttl),
            Err(failure) => !all_pairs_valid(pairs@, max) && failure@ == Fault::client(
                "invalid key"@,
            ),
        },
{
    let mut sets: Vec<SetRequest<'a>> = Vec::new();
    let mut i: usize = 0;
    while i < pairs.len()
        invariant
            i <= pairs@.len(),
            sets@.len() == i,
            forall|j: int| 0 <= j < i ==> plain_set(#[trigger] sets@[j], pairs@[j], ttl),
            forall|j: int| 0 <= j < i ==> valid_key((#[trigger] pairs@[j]).key, max),
        decreases pairs@.len() - i,
    {
        let pair = pairs[i];
        match key_of(pair.key, max) {
            Ok(key) => {
                sets.push(
                    SetRequest {
                        key,
                        value: pair.value,
                        ttl,
                        mc_flags: 0,
                        tags: Vec::new(),
                        mode: SetMode::Always,
                        return_previous: false,
                    },
                );
            },
            Err(failure) => {
                return Err(failure);
            },
        }
        i = i + 1;
    }
    Ok(sets)
}

/// The bit pattern of the largest finite float.
pub const FLOAT_MAX_BITS: u64 = 0x7fef_ffff_ffff_ffff;

/// The bit pattern of the smallest finite float.
pub const FLOAT_MIN_BITS: u64 = 0xffef_ffff_ffff_ffff;

/// The arithmetic of an unbounded increment: the limits of its own type.
pub open spec fn unbounded(delta: Increment) -> Delta {
    match delta {
        Increment::Int(value) => Delta::Int { delta: value, lower: i64::MIN, upper: i64::MAX },
        Increment::Float(bits) => Delta::Float {
            delta: bits,
            lower: FloatBound::Bits(FLOAT_MIN_BITS),
            upper: FloatBound::Bits(FLOAT_MAX_BITS),
        },
    }
}

fn delta_of(delta: Increment) -> (out: Delta)
    ensures
        out == unbounded(delta),
{
    match delta {
        Increment::Int(value) => Delta::Int { delta: value, lower: i64::MIN, upper: i64::MAX },
        Increment::Float(bits) => Delta::Float {
            delta: bits,
            lower: FloatBound::Bits(FLOAT_MIN_BITS),
            upper: FloatBound::Bits(FLOAT_MAX_BITS),
        },
    }
}

/// An integer bound: its default where there is none, and nothing where it is a
/// float.
pub open spec fn int_bound(bound: Option<Increment>, default: i64) -> Option<i64> {
    match bound {
        None => Some(default),
        Some(Increment::Int(value)) => Some(value),
        Some(Increment::Float(_)) => None,
    }
}

fn bound_int(bound: Option<Increment>, default: i64) -> (out: Result<i64, Failure>)
    ensures
        match (out, int_bound(bound, default)) {
            (Ok(value), Some(expected)) => value == expected,
            (Err(failure), None) => failure@ == Fault::client(
                "value is not an integer or out of range"@,
            ),
            _ => false,
        },
{
    match bound {
        None => Ok(default),
        Some(Increment::Int(value)) => Ok(value),
        Some(Increment::Float(_)) => Err(
            Failure::client("value is not an integer or out of range"),
        ),
    }
}

/// A float bound: its default where there is none.
pub open spec fn float_bound(bound: Option<Increment>, default: u64) -> FloatBound {
    match bound {
        None => FloatBound::Bits(default),
        Some(Increment::Int(value)) => FloatBound::Integer(value),
        Some(Increment::Float(bits)) => FloatBound::Bits(bits),
    }
}

fn bound_float(bound: Option<Increment>, default: u64) -> (out: FloatBound)
    ensures
        out == float_bound(bound, default),
{
    match bound {
        None => FloatBound::Bits(default),
        Some(Increment::Int(value)) => FloatBound::Integer(value),
        Some(Increment::Float(bits)) => FloatBound::Bits(bits),
    }
}

/// The bounded arithmetic of `INCREX`, unless an integer increment has a float
/// bound.
pub open spec fn bounded(op: IncrEx) -> Option<Delta> {
    match op.delta {
        Increment::Int(delta) => match (
            int_bound(op.lower, i64::MIN),
            int_bound(op.upper, i64::MAX),
        ) {
            (Some(lower), Some(upper)) => Some(Delta::Int { delta, lower, upper }),
            _ => None,
        },
        Increment::Float(delta) => Some(
            Delta::Float {
                delta,
                lower: float_bound(op.lower, FLOAT_MIN_BITS),
                upper: float_bound(op.upper, FLOAT_MAX_BITS),
            },
        ),
    }
}

/// What `INCREX` does to the lifetime: nothing without an expiry option, and
/// with one that the record must not have a deadline for, only then.
pub open spec fn increx_lifetime(op: IncrEx, now: i64) -> Option<TtlChange> {
    match op.expiry {
        None => Some(TtlChange::Keep),
        Some(Expiry::Persist) => Some(TtlChange::To(0)),
        Some(Expiry::Unset) | Some(Expiry::Keep) => Some(TtlChange::Keep),
        Some(expiry) => match lifetime_of(expiry, now) {
            Some(TtlChange::To(ttl)) => if op.only_if_persistent {
                Some(TtlChange::ToIfPersistent(ttl))
            } else {
                Some(TtlChange::To(ttl))
            },
            _ => None,
        },
    }
}

/// What `INCREX` is in the domain, or why it is refused: its bounds first, then
/// its expiry, then its key.
pub open spec fn increx_of<'a>(op: IncrEx<'a>, now: i64, max: usize) -> Result<
    Arithmetic<'a>,
    Fault,
> {
    match bounded(op) {
        None => Err(Fault::client("value is not an integer or out of range"@)),
        Some(delta) => match increx_lifetime(op, now) {
            None => Err(Fault::client("invalid expire time in 'increx' command"@)),
            Some(ttl) => if !valid_key(op.key, max) {
                Err(Fault::client("invalid key"@))
            } else {
                Ok(
                    Arithmetic {
                        key: Key { bytes: op.key },
                        delta,
                        on_bound: if op.saturate {
                            OnBound::Clamp
                        } else {
                            OnBound::Skip
                        },
                        missing: Missing::CreateAtZero,
                        ttl,
                    },
                )
            },
        },
    }
}

/// `INCREX`: arithmetic, bounds and an expiry in one operation.
pub fn translate_increx<'a>(op: &IncrEx<'a>, now: i64, max: usize) -> (out: Result<
    Arithmetic<'a>,
    Failure,
>)
    ensures
        match (out, increx_of(*op, now, max)) {
            (Ok(op), Ok(expected)) => op == expected,
            (Err(failure), Err(fault)) => failure@ == fault,
            _ => false,
        },
{
    let delta = match op.delta {
        Increment::Int(delta) => {
            let lower: i64 = match bound_int(op.lower, i64::MIN) {
                Ok(lower) => lower,
                Err(failure) => {
                    return Err(failure);
                },
            };
            let upper: i64 = match bound_int(op.upper, i64::MAX) {
                Ok(upper) => upper,
                Err(failure) => {
                    return Err(failure);
                },
            };
            Delta::Int { delta, lower, upper }
        },
        Increment::Float(delta) => Delta::Float {
            delta,
            lower: bound_float(op.lower, FLOAT_MIN_BITS),
            upper: bound_float(op.upper, FLOAT_MAX_BITS),
        },
    };
    let ttl = match op.expiry {
        None => TtlChange::Keep,
        Some(Expiry::Persist) => TtlChange::To(0),
        Some(Expiry::Unset) | Some(Expiry::Keep) => TtlChange::Keep,
        Some(expiry) => match ttl_change_for(
            expiry,
            now,
            "invalid expire time in 'increx' command",
        ) {
            Ok(TtlChange::To(ttl)) => if op.only_if_persistent {
                TtlChange::ToIfPersistent(ttl)
            } else {
                TtlChange::To(ttl)
            },
            Ok(_) => {
                return Err(Failure::internal());
            },
            Err(failure) => {
                return Err(failure);
            },
        },
    };
    let key = match key_of(op.key, max) {
        Ok(key) => key,
        Err(failure) => {
            return Err(failure);
        },
    };
    Ok(
        Arithmetic {
            key,
            delta,
            on_bound: if op.saturate {
                OnBound::Clamp
            } else {
                OnBound::Skip
            },
            missing: Missing::CreateAtZero,
            ttl,
        },
    )
}

/// The deadline an `EXPIRE` asks for.
pub open spec fn expire_deadline(expiry: Expiry, now: i64) -> i64 {
    match expiry {
        Expiry::After(millis) => if now + millis > i64::MAX {
            i64::MAX
        } else if now + millis < i64::MIN {
            i64::MIN
        } else {
            (now + millis) as i64
        },
        Expiry::At(millis) => millis,
        _ => now,
    }
}

/// The domain's name of an expiry condition.
pub open spec fn guard_of(condition: ExpireCondition) -> ExpireGuard {
    match condition {
        ExpireCondition::Always => ExpireGuard::Always,
        ExpireCondition::IfPersistent => ExpireGuard::IfPersistent,
        ExpireCondition::IfVolatile => ExpireGuard::IfVolatile,
        ExpireCondition::IfLater => ExpireGuard::IfLater,
        ExpireCondition::IfEarlier => ExpireGuard::IfEarlier,
    }
}

/// Whether a domain command is what a Redis command stands for, or the failure
/// is the one it deserves.
///
/// A key the store cannot hold is refused before anything else but a batch's
/// expiry, which is resolved once for the whole batch and first.
pub open spec fn translates<'a>(
    command: RespCommand<'a>,
    now: i64,
    max: usize,
    out: Result<Command<'a>, Fault>,
) -> bool {
    let bad_key = Err::<Command<'a>, Fault>(Fault::client("invalid key"@));
    match command {
        RespCommand::Ping { .. } => out == Ok::<Command<'a>, Fault>(Command::Ping),
        RespCommand::Get { key } => out == (if valid_key(key, max) {
            Ok(Command::Get { key: Key { bytes: key } })
        } else {
            bad_key
        }),
        RespCommand::MGet { keys } => if all_valid(keys@, max) {
            out matches Ok(Command::GetMany(found)) && keys_match(found@, keys@)
        } else {
            out == bad_key
        },
        RespCommand::Exists { keys } => if all_valid(keys@, max) {
            out matches Ok(Command::Deadlines(found)) && keys_match(found@, keys@)
        } else {
            out == bad_key
        },
        RespCommand::Type { key } | RespCommand::Ttl { key } => out == (if valid_key(key, max) {
            Ok(Command::Deadline { key: Key { bytes: key } })
        } else {
            bad_key
        }),
        RespCommand::Delete { keys } => if all_valid(keys@, max) {
            out matches Ok(Command::DeleteMany(found)) && keys_match(found@, keys@)
        } else {
            out == bad_key
        },
        RespCommand::SetOne(set) => if !valid_key(set.key, max) {
            out == bad_key
        } else {
            match lifetime_of(set.expiry, now) {
                None => out == Err::<Command<'a>, Fault>(
                    Fault::client("invalid expire time in 'set' command"@),
                ),
                Some(ttl) => out matches Ok(Command::SetOne(made)) && made == (SetRequest {
                    key: Key { bytes: set.key },
                    value: set.value,
                    ttl,
                    mc_flags: 0,
                    tags: made.tags,
                    mode: match set.condition {
                        Condition::Always => SetMode::Always,
                        Condition::IfAbsent => SetMode::Add,
                        Condition::IfPresent => SetMode::Replace,
                    },
                    return_previous: set.return_previous,
                }) && made.tags@.len() == 0,
            }
        },
        RespCommand::MSet { pairs } => if all_pairs_valid(pairs@, max) {
            out matches Ok(Command::SetMany { sets, guard }) && guard == BatchGuard::Always
                && plain_sets(sets@, pairs@, TtlChange::To(0))
        } else {
            out == bad_key
        },
        RespCommand::MSetEx { pairs, condition, expiry } => match lifetime_of(expiry, now) {
            None => out == Err::<Command<'a>, Fault>(
                Fault::client("invalid expire time in 'msetex' command"@),
            ),
            Some(ttl) => if all_pairs_valid(pairs@, max) {
                out matches Ok(Command::SetMany { sets, guard }) && plain_sets(
                    sets@,
                    pairs@,
                    ttl,
                ) && guard == (match condition {
                    Condition::Always => BatchGuard::Always,
                    Condition::IfAbsent => BatchGuard::IfAllAbsent,
                    Condition::IfPresent => BatchGuard::IfAllPresent,
                })
            } else {
                out == bad_key
            },
        },
        RespCommand::Append { key, value } => out == (if valid_key(key, max) {
            Ok(Command::Append { key: Key { bytes: key }, suffix: value })
        } else {
            bad_key
        }),
        RespCommand::Expire { key, expiry, condition } => out == (if valid_key(key, max) {
            Ok(
                Command::Expire {
                    key: Key { bytes: key },
                    ttl: TtlChange::To(stamp_of(expire_deadline(expiry, now), now)),
                    guard: guard_of(condition),
                },
            )
        } else {
            bad_key
        }),
        RespCommand::Persist { key } => out == (if valid_key(key, max) {
            Ok(
                Command::Expire {
                    key: Key { bytes: key },
                    ttl: TtlChange::To(0),
                    guard: ExpireGuard::IfVolatile,
                },
            )
        } else {
            bad_key
        }),
        RespCommand::Incr { key, delta } => out == (if valid_key(key, max) {
            Ok(
                Command::Arithmetic(
                    Arithmetic {
                        key: Key { bytes: key },
                        delta: unbounded(delta),
                        on_bound: OnBound::Fail,
                        missing: Missing::CreateAtZero,
                        ttl: TtlChange::Keep,
                    },
                ),
            )
        } else {
            bad_key
        }),
        RespCommand::IncrEx(op) => match increx_of(op, now, max) {
            Ok(made) => out == Ok::<Command<'a>, Fault>(Command::Arithmetic(made)),
            Err(fault) => out == Err::<Command<'a>, Fault>(fault),
        },
        RespCommand::Info => out == Ok::<Command<'a>, Fault>(Command::Stats),
        RespCommand::Quit | RespCommand::Auth(_) | RespCommand::Hello { .. }
        | RespCommand::Scan(_) => out == Err::<Command<'a>, Fault>(Fault::internal()),
    }
}

/// The model of a translation's result.
pub open spec fn shown<'a>(out: Result<Command<'a>, Failure>) -> Result<Command<'a>, Fault> {
    match out {
        Ok(command) => Ok(command),
        Err(failure) => Err(failure@),
    }
}

/// Translates a Redis command into the shared boundary type.
///
/// `now` is one instant for the whole command, in unix milliseconds.
pub fn translate<'a>(command: &RespCommand<'a>, now: i64, max: usize) -> (out: Result<
    Command<'a>,
    Failure,
>)
    ensures
        translates(*command, now, max, shown(out)),
        out matches Ok(made) ==> made.reads_only() == reads_only(*command),
{
    match command {
        RespCommand::Ping { .. } => Ok(Command::Ping),
        RespCommand::Get { key } => match key_of(key, max) {
            Ok(key) => Ok(Command::Get { key }),
            Err(failure) => Err(failure),
        },
        RespCommand::MGet { keys } => match keys_of(keys, max) {
            Ok(keys) => Ok(Command::GetMany(keys)),
            Err(failure) => Err(failure),
        },
        RespCommand::Exists { keys } => match keys_of(keys, max) {
            Ok(keys) => Ok(Command::Deadlines(keys)),
            Err(failure) => Err(failure),
        },
        RespCommand::Type { key } | RespCommand::Ttl { key } => match key_of(key, max) {
            Ok(key) => Ok(Command::Deadline { key }),
            Err(failure) => Err(failure),
        },
        RespCommand::Delete { keys } => match keys_of(keys, max) {
            Ok(keys) => Ok(Command::DeleteMany(keys)),
            Err(failure) => Err(failure),
        },
        RespCommand::SetOne(set) => {
            let key = match key_of(set.key, max) {
                Ok(key) => key,
                Err(failure) => {
                    return Err(failure);
                },
            };
            let ttl = match ttl_change_for(
                set.expiry,
                now,
                "invalid expire time in 'set' command",
            ) {
                Ok(ttl) => ttl,
                Err(failure) => {
                    return Err(failure);
                },
            };
            Ok(
                Command::SetOne(
                    SetRequest {
                        key,
                        value: set.value,
                        ttl,
                        mc_flags: 0,
                        tags: Vec::new(),
                        mode: match set.condition {
                            Condition::Always => SetMode::Always,
                            Condition::IfAbsent => SetMode::Add,
                            Condition::IfPresent => SetMode::Replace,
                        },
                        return_previous: set.return_previous,
                    },
                ),
            )
        },
        RespCommand::MSet { pairs } => match sets_of(pairs, TtlChange::To(0), max) {
            Ok(sets) => Ok(Command::SetMany { sets, guard: BatchGuard::Always }),
            Err(failure) => Err(failure),
        },
        RespCommand::MSetEx { pairs, condition, expiry } => {
            let ttl = match ttl_change_for(
                *expiry,
                now,
                "invalid expire time in 'msetex' command",
            ) {
                Ok(ttl) => ttl,
                Err(failure) => {
                    return Err(failure);
                },
            };
            match sets_of(pairs, ttl, max) {
                Ok(sets) => Ok(
                    Command::SetMany {
                        sets,
                        guard: match condition {
                            Condition::Always => BatchGuard::Always,
                            Condition::IfAbsent => BatchGuard::IfAllAbsent,
                            Condition::IfPresent => BatchGuard::IfAllPresent,
                        },
                    },
                ),
                Err(failure) => Err(failure),
            }
        },
        RespCommand::Append { key, value } => match key_of(key, max) {
            Ok(key) => Ok(Command::Append { key, suffix: *value }),
            Err(failure) => Err(failure),
        },
        RespCommand::Expire { key, expiry, condition } => {
            let deadline: i64 = match expiry {
                Expiry::After(millis) => match now.checked_add(*millis) {
                    Some(deadline) => deadline,
                    None => if *millis > 0 {
                        i64::MAX
                    } else {
                        i64::MIN
                    },
                },
                Expiry::At(millis) => *millis,
                Expiry::Unset | Expiry::Keep | Expiry::Persist => now,
            };
            match key_of(key, max) {
                Ok(key) => Ok(
                    Command::Expire {
                        key,
                        ttl: TtlChange::To(ttl_from_deadline(deadline, now)),
                        guard: match condition {
                            ExpireCondition::Always => ExpireGuard::Always,
                            ExpireCondition::IfPersistent => ExpireGuard::IfPersistent,
                            ExpireCondition::IfVolatile => ExpireGuard::IfVolatile,
                            ExpireCondition::IfLater => ExpireGuard::IfLater,
                            ExpireCondition::IfEarlier => ExpireGuard::IfEarlier,
                        },
                    },
                ),
                Err(failure) => Err(failure),
            }
        },
        RespCommand::Persist { key } => match key_of(key, max) {
            Ok(key) => Ok(
                Command::Expire { key, ttl: TtlChange::To(0), guard: ExpireGuard::IfVolatile },
            ),
            Err(failure) => Err(failure),
        },
        RespCommand::Incr { key, delta } => match key_of(key, max) {
            Ok(key) => Ok(
                Command::Arithmetic(
                    Arithmetic {
                        key,
                        delta: delta_of(*delta),
                        on_bound: OnBound::Fail,
                        missing: Missing::CreateAtZero,
                        ttl: TtlChange::Keep,
                    },
                ),
            ),
            Err(failure) => Err(failure),
        },
        RespCommand::IncrEx(op) => match translate_increx(op, now, max) {
            Ok(op) => Ok(Command::Arithmetic(op)),
            Err(failure) => Err(failure),
        },
        RespCommand::Info => Ok(Command::Stats),
        RespCommand::Quit | RespCommand::Auth(_) | RespCommand::Hello { .. }
        | RespCommand::Scan(_) => Err(Failure::internal()),
    }
}

/// The shortcut agrees with the domain: whatever a command translates into may
/// run on a network worker exactly when the command may.
pub proof fn the_shortcut_agrees_with_the_domain(
    command: RespCommand,
    now: i64,
    max: usize,
    made: Command,
)
    requires
        translates(command, now, max, Ok(made)),
    ensures
        made.reads_only() == reads_only(command),
{
}

/// The connection commands never reach the storage boundary.
pub proof fn connection_commands_do_not_translate(
    command: RespCommand,
    now: i64,
    max: usize,
    out: Result<Command, Fault>,
)
    requires
        command is Quit || command is Auth || command is Hello,
        translates(command, now, max, out),
    ensures
        out is Err,
        reads_only(command),
{
}

/// One element of a reply, as the encoder writes it.
#[derive(Debug, Clone, Copy)]
pub enum Piece<'r> {
    /// `OK`.
    Okay,
    Null,
    Simple(&'static str),
    Bulk(&'r [u8]),
    Integer(i64),
    /// The header of an array of this many elements.
    Array(usize),
    /// A float, as a bulk string of its shortest text.
    FloatText(u64),
    /// A float, in the dialect's own form.
    Double(u64),
    /// A number, as a bulk string of its decimal text.
    DecimalText(u64),
    /// The counters, worded as `INFO` words them.
    Info,
}

/// What one element of a reply says.
#[verifier::ext_equal]
pub enum Element {
    Okay,
    Null,
    Simple(Seq<char>),
    Bulk(Seq<u8>),
    Integer(i64),
    Array(nat),
    FloatText(u64),
    Double(u64),
    DecimalText(u64),
    Info,
}

impl<'r> View for Piece<'r> {
    type V = Element;

    open spec fn view(&self) -> Element {
        match self {
            Piece::Okay => Element::Okay,
            Piece::Null => Element::Null,
            Piece::Simple(s) => Element::Simple(s@),
            Piece::Bulk(b) => Element::Bulk(b@),
            Piece::Integer(n) => Element::Integer(*n),
            Piece::Array(n) => Element::Array(*n as nat),
            Piece::FloatText(bits) => Element::FloatText(*bits),
            Piece::Double(bits) => Element::Double(*bits),
            Piece::DecimalText(n) => Element::DecimalText(*n),
            Piece::Info => Element::Info,
        }
    }
}

/// What the elements of a reply say.
pub open spec fn elements(pieces: Seq<Piece>) -> Seq<Element> {
    Seq::new(pieces.len(), |i: int| pieces[i]@)
}

/// A value as `MGET` shows it: a bulk string, or null where there is none.
pub open spec fn value_element(value: Option<domain::Value>) -> Element {
    match value {
        Some(value) => Element::Bulk(value.data@),
        None => Element::Null,
    }
}

/// A counter's value as `INCR` shows it. A memcached counter is not one.
pub open spec fn counter_element(n: Number) -> Option<Element> {
    match n {
        Number::Int(value) => Some(Element::Integer(value)),
        Number::Float(bits) => Some(Element::FloatText(bits)),
        Number::Counter(_) => None,
    }
}

/// A counter's value as `INCREX` shows it.
pub open spec fn increx_element(n: Number) -> Option<Element> {
    match n {
        Number::Int(value) => Some(Element::Integer(value)),
        Number::Float(bits) => Some(Element::Double(bits)),
        Number::Counter(_) => None,
    }
}

/// What a reply to a command is rendered as, or `None` where the command cannot
/// have produced it.
///
/// The command counts as well as the reply: `TTL`, `TYPE` and `EXISTS` are one
/// deadline query worded three ways.
pub open spec fn rendering(command: RespCommand, reply: Reply, now: u64) -> Option<Seq<Element>> {
    match (command, reply) {
        (RespCommand::Ping { message }, _) => match message {
            Some(message) => Some(seq![Element::Bulk(message@)]),
            None => Some(seq![Element::Simple("PONG"@)]),
        },
        (RespCommand::Info, Reply::Stats(_)) => Some(seq![Element::Info]),
        (_, Reply::Value(value)) => Some(seq![Element::Bulk(value.data@)]),
        (RespCommand::Get { .. }, Reply::NotFound) => Some(seq![Element::Null]),
        (_, Reply::Values(values)) => Some(
            seq![Element::Array(values@.len())] + Seq::new(
                values@.len(),
                |i: int| value_element(values@[i]),
            ),
        ),
        (RespCommand::Exists { .. }, Reply::Deadlines(found)) => Some(
            seq![Element::Integer(domain::count_some(found@) as i64)],
        ),
        (RespCommand::Type { .. }, Reply::Deadline(deadline)) => Some(
            seq![
                Element::Simple(
                    if deadline is Some {
                        "string"@
                    } else {
                        "none"@
                    },
                ),
            ],
        ),
        (RespCommand::Ttl { .. }, Reply::Deadline(deadline)) => Some(
            seq![Element::Integer(ttl_answer(deadline, now) as i64)],
        ),
        (RespCommand::Delete { .. }, Reply::DeletedMany(hits)) => Some(
            seq![Element::Integer(domain::count_true(hits@) as i64)],
        ),
        (RespCommand::SetOne(_), Reply::Swapped { previous, .. }) => Some(
            seq![value_element(previous)],
        ),
        (RespCommand::SetOne(_), Reply::Stored(outcome)) => if outcome is Stored {
            Some(seq![Element::Okay])
        } else {
            Some(seq![Element::Null])
        },
        (RespCommand::MSet { .. }, Reply::StoredMany(_)) => Some(seq![Element::Okay]),
        (RespCommand::MSetEx { .. }, Reply::StoredMany(_)) => Some(seq![Element::Integer(1)]),
        (RespCommand::MSetEx { .. }, Reply::Stored(outcome)) => if outcome is NotStored {
            Some(seq![Element::Integer(0)])
        } else {
            None
        },
        (RespCommand::Append { .. }, Reply::Length(length)) => Some(
            seq![Element::Integer(length as i64)],
        ),
        (RespCommand::Expire { .. }, Reply::Applied(applied)) | (
            RespCommand::Persist { .. },
            Reply::Applied(applied),
        ) => Some(
            seq![
                Element::Integer(
                    if applied {
                        1
                    } else {
                        0
                    },
                ),
            ],
        ),
        (RespCommand::Incr { .. }, Reply::Arithmetic(applied)) => match counter_element(
            applied.value,
        ) {
            Some(element) => Some(seq![element]),
            None => None,
        },
        (RespCommand::IncrEx(_), Reply::Arithmetic(applied)) => match (
            increx_element(applied.value),
            increx_element(applied.applied),
        ) {
            (Some(value), Some(moved)) => Some(seq![Element::Array(2), value, moved]),
            _ => None,
        },
        _ => None,
    }
}

fn one<'r>(piece: Piece<'r>) -> (pieces: Vec<Piece<'r>>)
    ensures
        elements(pieces@) == seq![piece@],
{
    let pieces = vec![piece];
    assert(elements(pieces@) =~= seq![piece@]);
    pieces
}

fn value_piece<'r>(value: &'r Option<domain::Value>) -> (piece: Piece<'r>)
    ensures
        piece@ == value_element(*value),
{
    match value {
        Some(value) => Piece::Bulk(value.data.as_slice()),
        None => Piece::Null,
    }
}

fn increx_piece<'r>(n: Number) -> (piece: Result<Piece<'r>, Failure>)
    ensures
        match (piece, increx_element(n)) {
            (Ok(piece), Some(element)) => piece@ == element,
            (Err(failure), None) => failure@ == Fault::internal(),
            _ => false,
        },
{
    match n {
        Number::Int(value) => Ok(Piece::Integer(value)),
        Number::Float(bits) => Ok(Piece::Double(bits)),
        Number::Counter(_) => Err(Failure::internal()),
    }
}

/// `INCREX` answers with the new value and the increment actually applied.
fn answer_increx<'r>(value: Number, applied: Number) -> (pieces: Result<Vec<Piece<'r>>, Failure>)
    ensures
        match (pieces, increx_element(value), increx_element(applied)) {
            (Ok(pieces), Some(v), Some(a)) => elements(pieces@) == seq![Element::Array(2), v, a],
            (Err(failure), None, _) => failure@ == Fault::internal(),
            (Err(failure), _, None) => failure@ == Fault::internal(),
            _ => false,
        },
{
    let first = match increx_piece(value) {
        Ok(piece) => piece,
        Err(failure) => {
            return Err(failure);
        },
    };
    let second = match increx_piece(applied) {
        Ok(piece) => piece,
        Err(failure) => {
            return Err(failure);
        },
    };
    let pieces = vec![Piece::Array(2), first, second];
    assert(elements(pieces@) =~= seq![Element::Array(2), first@, second@]);
    Ok(pieces)
}

/// Renders a reply in this dialect. `now` is in unix milliseconds.
///
/// A reply shape that the command cannot have produced is an internal error.
pub fn render<'r>(command: &RespCommand<'r>, reply: &'r Reply, now: u64) -> (out: Result<
    Vec<Piece<'r>>,
    Failure,
>)
    ensures
        match (out, rendering(*command, *reply, now)) {
            (Ok(pieces), Some(expected)) => elements(pieces@) == expected,
            (Err(failure), None) => failure@ == Fault::internal(),
            _ => false,
        },
        match (command, reply) {
            (RespCommand::Exists { .. }, Reply::Deadlines(found)) => out matches Ok(pieces)
                && elements(pieces@) == seq![
                Element::Integer(domain::places(found@).len() as i64),
            ],
            (RespCommand::Delete { .. }, Reply::DeletedMany(hits)) => out matches Ok(pieces)
                && elements(pieces@) == seq![
                Element::Integer(domain::hit_places(hits@).len() as i64),
            ],
            _ => true,
        },
{
    match (command, reply) {
        (RespCommand::Ping { message }, _) => match message {
            Some(message) => Ok(one(Piece::Bulk(*message))),
            None => Ok(one(Piece::Simple("PONG"))),
        },
        (RespCommand::Info, Reply::Stats(_)) => Ok(one(Piece::Info)),
        (_, Reply::Value(value)) => Ok(one(Piece::Bulk(value.data.as_slice()))),
        (RespCommand::Get { .. }, Reply::NotFound) => Ok(one(Piece::Null)),
        (_, Reply::Values(values)) => {
            let mut pieces = one(Piece::Array(values.len()));
            let ghost head = seq![Element::Array(values@.len())];
            let ghost all = Seq::new(values@.len(), |i: int| value_element(values@[i]));
            let mut i: usize = 0;
            assert(head + all.take(0) =~= head);
            while i < values.len()
                invariant
                    i <= values@.len(),
                    all == Seq::new(values@.len(), |i: int| value_element(values@[i])),
                    elements(pieces@) == head + all.take(i as int),
                decreases values@.len() - i,
            {
                let ghost before = pieces@;
                let piece = value_piece(&values[i]);
                pieces.push(piece);
                i = i + 1;
                assert(elements(pieces@) =~= elements(before).push(piece@));
                assert(elements(pieces@) =~= head + all.take(i as int));
            }
            assert(all.take(i as int) =~= all);
            Ok(pieces)
        },
        (RespCommand::Exists { .. }, Reply::Deadlines(found)) => Ok(
            one(Piece::Integer(domain::present(found) as i64)),
        ),
        (RespCommand::Type { .. }, Reply::Deadline(deadline)) => Ok(
            one(
                Piece::Simple(
                    if deadline.is_some() {
                        "string"
                    } else {
                        "none"
                    },
                ),
            ),
        ),
        (RespCommand::Ttl { .. }, Reply::Deadline(deadline)) => Ok(
            one(Piece::Integer(remaining_secs(deadline, now))),
        ),
        (RespCommand::Delete { .. }, Reply::DeletedMany(hits)) => Ok(
            one(Piece::Integer(domain::hits(hits) as i64)),
        ),
        (RespCommand::SetOne(_), Reply::Swapped { previous, .. }) => Ok(
            one(value_piece(previous)),
        ),
        (RespCommand::SetOne(_), Reply::Stored(outcome)) => {
            if let Stored::Stored(_) = outcome {
                Ok(one(Piece::Okay))
            } else {
                Ok(one(Piece::Null))
            }
        },
        (RespCommand::MSet { .. }, Reply::StoredMany(_)) => Ok(one(Piece::Okay)),
        (RespCommand::MSetEx { .. }, Reply::StoredMany(_)) => Ok(one(Piece::Integer(1))),
        (RespCommand::MSetEx { .. }, Reply::Stored(outcome)) => {
            if let Stored::NotStored = outcome {
                Ok(one(Piece::Integer(0)))
            } else {
                Err(Failure::internal())
            }
        },
        (RespCommand::Append { .. }, Reply::Length(length)) => Ok(
            one(Piece::Integer(*length as i64)),
        ),
        (RespCommand::Expire { .. }, Reply::Applied(applied)) => Ok(one(applied_piece(*applied))),
        (RespCommand::Persist { .. }, Reply::Applied(applied)) => Ok(one(applied_piece(*applied))),
        (RespCommand::Incr { .. }, Reply::Arithmetic(applied)) => match applied.value {
            Number::Int(value) => Ok(one(Piece::Integer(value))),
            Number::Float(bits) => Ok(one(Piece::FloatText(bits))),
            Number::Counter(_) => Err(Failure::internal()),
        },
        (RespCommand::IncrEx(_), Reply::Arithmetic(applied)) => answer_increx(
            applied.value,
            applied.applied,
        ),
        _ => Err(Failure::internal()),
    }
}

fn applied_piece<'r>(applied: bool) -> (piece: Piece<'r>)
    ensures
        piece@ == Element::Integer(
            if applied {
                1
            } else {
                0
            },
        ),
{
    if applied {
        Piece::Integer(1)
    } else {
        Piece::Integer(0)
    }
}

/// What `SCAN` does first.
#[derive(Debug)]
pub enum ScanStart {
    /// Answered with the end of the iteration and no keys: every stored value is
    /// a string, so any other type genuinely has none.
    Nothing,
    /// A page from this position, empty for the beginning.
    Page(Vec<u8>),
    Refused(Failure),
}

/// Whether a `SCAN` starts where its token says: from the beginning for the token that
/// means it and for no other, and otherwise from the very position that the token was
/// handed out for. A token that names nothing is never taken for the beginning.
pub open spec fn starts_where_told(
    op: Scan,
    table: scan::ScanTable,
    now: u128,
    start: ScanStart,
) -> bool {
    match start {
        ScanStart::Nothing => !op.only_strings,
        ScanStart::Page(cursor) => {
            &&& op.only_strings
            &&& op.token == 0 ==> cursor@.len() == 0
            &&& op.token != 0 ==> table.resolution(op.token, now) == Some(cursor@)
        },
        ScanStart::Refused(failure) => {
            &&& op.only_strings && op.token != 0 && table.resolution(op.token, now) is None
            &&& failure.class is Client && !failure.counted
        },
    }
}

/// Starts a `SCAN`: turns the client's token into a position.
///
/// A token that names nothing is an error, never a silent restart from the
/// beginning, which would spin a client's pager forever.
pub fn begin_scan(op: &Scan, cursors: &ScanCursors, now: u128) -> (start: ScanStart)
    requires
        cursors@.wf(),
    ensures
        if !op.only_strings {
            start is Nothing
        } else if op.token == scan::START {
            start matches ScanStart::Page(cursor) && cursor@.len() == 0
        } else {
            match cursors@.resolution(op.token, now) {
                Some(position) => start matches ScanStart::Page(cursor) && cursor@ == position,
                None => start matches ScanStart::Refused(failure) && failure@ == Fault::client(
                    "scan cursor expired; restart the iteration from 0"@,
                ),
            }
        },
        starts_where_told(*op, cursors@, now, start),
{
    if !op.only_strings {
        return ScanStart::Nothing;
    }
    if op.token == scan::START {
        return ScanStart::Page(Vec::new());
    }
    match cursors.resolve(op.token, now) {
        Some(position) => ScanStart::Page(position),
        None => ScanStart::Refused(
            Failure::client("scan cursor expired; restart the iteration from 0"),
        ),
    }
}

/// The listing a `SCAN` asks for from a position.
pub fn scan_request<'a>(op: &Scan<'a>, cursor: &'a [u8]) -> (request: ListRequest<'a>)
    ensures
        request == (ListRequest { limit: op.count, cursor, pattern: op.pattern }),
{
    ListRequest { limit: op.count, cursor, pattern: op.pattern }
}

/// `[cursor, [key …]]`, with the cursor as decimal text.
pub open spec fn scan_elements(token: u64, entries: Seq<ListEntry>) -> Seq<Element> {
    seq![Element::Array(2), Element::DecimalText(token), Element::Array(entries.len())] + Seq::new(
        entries.len(),
        |i: int| Element::Bulk(entries[i].name@),
    )
}

/// The pieces of a `SCAN` answer.
pub fn answer_scan<'r>(token: u64, entries: &'r Vec<ListEntry>) -> (pieces: Vec<Piece<'r>>)
    ensures
        elements(pieces@) == scan_elements(token, entries@),
{
    let mut pieces = vec![
        Piece::Array(2),
        Piece::DecimalText(token),
        Piece::Array(entries.len()),
    ];
    let ghost head = seq![
        Element::Array(2),
        Element::DecimalText(token),
        Element::Array(entries@.len()),
    ];
    let ghost all = Seq::new(entries@.len(), |i: int| Element::Bulk(entries@[i].name@));
    assert(elements(pieces@) =~= head + all.take(0));
    let mut i: usize = 0;
    while i < entries.len()
        invariant
            i <= entries@.len(),
            all == Seq::new(entries@.len(), |i: int| Element::Bulk(entries@[i].name@)),
            elements(pieces@) == head + all.take(i as int),
        decreases entries@.len() - i,
    {
        let ghost before = pieces@;
        let piece = Piece::Bulk(entries[i].name.as_slice());
        pieces.push(piece);
        i = i + 1;
        assert(elements(pieces@) =~= elements(before).push(piece@));
        assert(elements(pieces@) =~= head + all.take(i as int));
    }
    assert(all.take(i as int) =~= all);
    pieces
}

/// Ends a `SCAN` page: turns the position it stopped at into the next token. A
/// listing without one has ended, which is Redis's zero exactly.
pub fn next_scan_token(page: &Listing, cursors: &mut ScanCursors, now: u128) -> (token: u64)
    requires
        old(cursors)@.wf(),
        old(cursors)@.next < u64::MAX,
    ensures
        final(cursors)@.wf(),
        match page.cursor {
            Some(position) => token == old(cursors)@.next && final(cursors)@ == old(
                cursors,
            )@.after_issue(position@, now),
            None => token == scan::START && final(cursors)@ == old(cursors)@,
        },
        token == 0 <==> page.cursor is None,
{
    match &page.cursor {
        Some(position) => cursors.issue(position.as_slice(), now),
        None => scan::START,
    }
}

/// A `SCAN` resumes exactly where its last page stopped: the token handed out for
/// a position leads the next call to that position, until it expires.
pub proof fn a_scan_resumes_where_it_stopped(
    t: scan::ScanTable,
    position: Seq<u8>,
    now: u128,
    later: u128,
)
    requires
        t.wf(),
        t.next < u64::MAX,
        t.capacity > 0,
        now <= later,
        later - now < t.ttl,
    ensures
        t.next != scan::START,
        t.after_issue(position, now).resolution(t.next, later) == Some(position),
{
    scan::issued_token_resolves_until_it_expires(t, position, now, later);
}

/// What a command is, before anything is asked of the store.
#[allow(inconsistent_fields)]
#[derive(Debug)]
pub enum Route<'c, 'a> {
    Quit,
    Refused(Failure),
    Auth(&'c Presented<'a>),
    Hello { version: Option<i64>, auth: Option<Presented<'a>> },
    Scan(&'c Scan<'a>),
    /// One key, rendered straight out of the store.
    Get(Key<'a>),
    /// Executed at the shared boundary.
    Execute(Command<'a>),
    /// Refused before it reached the boundary.
    Failed(Failure),
}

/// Whether a path is one that a command asked for: the conversation's own commands stay
/// in it, a read of one key takes the short way with that key, and a connection that has
/// to authenticate gets to nothing but that.
pub open spec fn leads_where_asked<'c, 'a>(
    gated: bool,
    command: &'c RespCommand<'a>,
    route: Route<'c, 'a>,
) -> bool {
    match route {
        Route::Quit => command is Quit,
        Route::Refused(failure) => gated && command !is Quit && command !is Auth && failure.class
            is Client && !failure.counted,
        Route::Auth(presented) => *command == RespCommand::Auth(*presented),
        Route::Hello { version, auth } => *command == (RespCommand::Hello { version, auth }) && (
        gated ==> auth is Some),
        Route::Scan(op) => *command == RespCommand::Scan(*op) && !gated,
        Route::Get(key) => *command == (RespCommand::Get { key: key.bytes }) && !gated,
        Route::Execute(made) => !gated && command !is Get && command !is Quit && command !is Auth
            && command !is Hello && command !is Scan && made.reads_only() == reads_only(*command),
        Route::Failed(failure) => !gated && !failure.counted,
    }
}

/// Chooses the path of a command, counting the ones that go no further: `QUIT`,
/// and what is refused.
///
/// Quitting is always possible. Everything else is refused to a stranger, and what
/// touches storage is translated.
pub fn route<'c, 'a>(
    metrics: &mut ServerMetrics,
    gated: bool,
    command: &'c RespCommand<'a>,
    now: i64,
    max: usize,
) -> (route: Route<'c, 'a>)
    ensures
        *final(metrics) == (match route {
            Route::Quit => old(metrics).with_other(),
            Route::Refused(failure) => old(metrics).with_auth_refused().with_other().with_error(
                failure.class,
            ),
            _ => *old(metrics),
        }),
        match command {
            RespCommand::Quit => route is Quit,
            _ => match refusal_of(gated, *command) {
                Some(fault) => route matches Route::Refused(failure) && failure@ == fault,
                None => match command {
                    RespCommand::Auth(presented) => route == Route::Auth(presented),
                    RespCommand::Hello { version, auth } => route == (Route::Hello {
                        version: *version,
                        auth: *auth,
                    }),
                    RespCommand::Scan(op) => route == Route::Scan(op),
                    RespCommand::Get { key } => if valid_key(*key, max) {
                        route == Route::Get(Key { bytes: *key })
                    } else {
                        route matches Route::Failed(failure) && failure@ == Fault::client(
                            "invalid key"@,
                        )
                    },
                    _ => match route {
                        Route::Execute(made) => translates(*command, now, max, Ok(made)),
                        Route::Failed(failure) => translates(
                            *command,
                            now,
                            max,
                            Err(failure@),
                        ),
                        _ => false,
                    },
                },
            },
        },
        leads_where_asked(gated, command, route),
{
    if let RespCommand::Quit = command {
        metrics.other();
        return Route::Quit;
    }
    if let Some(failure) = refusal(gated, command) {
        count_refused(metrics, &failure);
        return Route::Refused(failure);
    }
    match command {
        RespCommand::Auth(presented) => Route::Auth(presented),
        RespCommand::Hello { version, auth } => Route::Hello { version: *version, auth: *auth },
        RespCommand::Scan(op) => Route::Scan(op),
        RespCommand::Get { key } => match key_of(key, max) {
            Ok(key) => Route::Get(key),
            Err(failure) => Route::Failed(failure),
        },
        _ => match translate(command, now, max) {
            Ok(made) => Route::Execute(made),
            Err(failure) => Route::Failed(failure),
        },
    }
}

/// A stranger may authenticate or leave, and nothing else; a command of a connection
/// that need not authenticate is never refused for want of it.
pub proof fn a_stranger_may_only_authenticate_or_leave(gated: bool, command: RespCommand)
    ensures
        refusal_of(gated, command) is None <==> {
            ||| !gated
            ||| command is Auth
            ||| command is Quit
            ||| command matches RespCommand::Hello { auth, .. } && auth is Some
        },
        refusal_of(gated, command) matches Some(fault) ==> fault.code == "NOAUTH"@ && !fault.counted
            && fault.class is Client,
{
}

/// A `HELLO` gets the dialect it names, the one in use where it names none, and no
/// other.
pub proof fn a_hello_gets_the_dialect_it_names(requested: Option<i64>, current: Version)
    ensures
        requested is None ==> negotiated(requested, current) == Some(current),
        negotiated(Some(2), current) == Some(Version::Resp2),
        negotiated(Some(3), current) == Some(Version::Resp3),
        negotiated(requested, current) is None <==> requested is Some && requested->0 != 2
            && requested->0 != 3,
{
}

/// A credential is accepted exactly where the table accepts it, under the default name
/// where it names nobody, and only what is accepted goes without an error.
pub proof fn only_an_accepted_secret_logs_in(policy: auth::Policy, credential: Presented)
    ensures
        login_fault(login_of(policy, credential)) is None <==> policy.accepts(
            match credential.name {
                Some(name) => name@,
                None => encode_utf8(DEFAULT_NAME@),
            },
            credential.secret@,
        ),
        policy.table.dom() =~= Set::empty() ==> login_of(policy, credential) is NothingConfigured,
{
}

/// A failure of the store is blamed alike in every dialect, and a client of this one
/// can tell the ways in which a number can fail apart.
pub proof fn a_failure_is_blamed_alike_in_every_dialect(
    e: crate::dispatch::StoreError,
    a: CoreError,
    b: CoreError,
)
    ensures
        fault_of(crate::dispatch::classified(e)).class == crate::dispatch::class_of(
            crate::dispatch::classified(e).status,
        ),
        numeric(a) && numeric(b) && a != b ==> fault_of(
            crate::dispatch::classified(crate::dispatch::StoreError::Core(a)),
        ).message != fault_of(
            crate::dispatch::classified(crate::dispatch::StoreError::Core(b)),
        ).message,
        fault_of(crate::dispatch::classified(e)).code == "OOM"@ <==> e is CapacityFull || e
            is TagLimit,
{
    reveal_strlit("value is not an integer or out of range");
    reveal_strlit("value is not a valid float");
    reveal_strlit("increment or decrement would overflow");
    reveal_strlit("increment would produce NaN or Infinity");
    reveal_strlit("OOM");
    reveal_strlit("ERR");
    assert("OOM"@[0] != "ERR"@[0]);
    assert("value is not an integer or out of range"@[14] == 'n');
    assert("value is not a valid float"@[14] == ' ');
    assert("value is not a valid float"@.len() != "increment or decrement would overflow"@.len());
    assert("value is not an integer or out of range"@[0] != "increment or decrement would overflow"@[0]);
    assert("value is not an integer or out of range"@[0] != "increment would produce NaN or Infinity"@[0]);
    assert("value is not a valid float"@[0] != "increment would produce NaN or Infinity"@[0]);
    assert("increment or decrement would overflow"@[10] != "increment would produce NaN or Infinity"@[10]);
}

/// The ways in which a number can fail.
pub open spec fn numeric(cause: CoreError) -> bool {
    cause is NotAnInteger || cause is NotAFloat || cause is Overflow || cause is NotFinite
}

/// A page of `SCAN` shows where to go on and every key of the page, in order, and
/// nothing else.
pub proof fn a_scan_page_shows_every_key(token: u64, entries: Seq<ListEntry>, i: int)
    requires
        0 <= i < entries.len(),
    ensures
        scan_elements(token, entries).len() == entries.len() + 3,
        scan_elements(token, entries)[1] == Element::DecimalText(token),
        scan_elements(token, entries)[2] == Element::Array(entries.len()),
        scan_elements(token, entries)[i + 3] == Element::Bulk(entries[i].name@),
{
}

} // verus!
