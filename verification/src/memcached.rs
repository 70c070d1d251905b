//! The memcached dialects: which path a parsed command takes, and what is
//! written back.
//!
//! Bytes are parsed and rendered by the wire codec; what stands here is every
//! decision between the two.
use crate::auth;
use crate::auth::{Auth, ConnAuth};
use crate::config::ProtocolConfig;
use crate::dispatch::{listing_gate, Closing, Failed};
use crate::domain::{Command, Key, ListRequest, Listing, Reply, SetMode, Status};
use crate::metrics::ServerMetrics;
use crate::text;
use vstd::prelude::*;
use vstd::slice::slice_subrange;

verus! {

/// An error line.
#[derive(Debug, Clone, Copy)]
pub enum ErrorKind {
    /// `ERROR`.
    Error,
    /// `CLIENT_ERROR` and a reason.
    Client(&'static str),
    /// `SERVER_ERROR` and a reason.
    Server(&'static str),
}

/// What an error line says.
#[verifier::ext_equal]
pub enum ErrorText {
    Error,
    Client(Seq<char>),
    Server(Seq<char>),
}

impl View for ErrorKind {
    type V = ErrorText;

    open spec fn view(&self) -> ErrorText {
        match self {
            ErrorKind::Error => ErrorText::Error,
            ErrorKind::Client(reason) => ErrorText::Client(reason@),
            ErrorKind::Server(reason) => ErrorText::Server(reason@),
        }
    }
}

/// The error line of a status, in memcached's own words.
pub open spec fn error_text(status: Status) -> ErrorText {
    match status {
        Status::TooLarge => ErrorText::Server("object too large for cache"@),
        Status::BadRequest => ErrorText::Client("bad command line format"@),
        Status::NotNumeric => ErrorText::Client(
            "cannot increment or decrement non-numeric value"@,
        ),
        Status::Unsupported => ErrorText::Error,
        Status::Unauthorized => ErrorText::Client("command disabled by configuration"@),
        Status::CapacityFull => ErrorText::Server("out of memory storing object"@),
        Status::Overloaded => ErrorText::Server("server is overloaded"@),
        Status::NotStored => ErrorText::Server("not stored"@),
        _ => ErrorText::Server("internal error"@),
    }
}

/// An error line blames whoever is to blame: the client for what it sent and what it
/// may not do, and the server for its room, its load and its own failures. What goes
/// wrong inside is never told apart from outside.
pub proof fn an_error_line_blames_the_right_side(status: Status)
    ensures
        error_text(status) is Client <==> (status == Status::BadRequest || status
            == Status::NotNumeric || status == Status::Unauthorized),
        error_text(status) is Error <==> status == Status::Unsupported,
        status == Status::CapacityFull || status == Status::Overloaded || status
            == Status::TooLarge ==> error_text(status) != error_text(Status::Internal),
{
    reveal_strlit("object too large for cache");
    reveal_strlit("out of memory storing object");
    reveal_strlit("server is overloaded");
    reveal_strlit("internal error");
    assert("object too large for cache"@.len() != "internal error"@.len());
    assert("out of memory storing object"@.len() != "internal error"@.len());
    assert("server is overloaded"@.len() != "internal error"@.len());
}

/// Maps an internal status onto the memcached error vocabulary.
pub fn memcached_error(status: Status) -> (kind: ErrorKind)
    ensures
        kind@ == error_text(status),
{
    match status {
        Status::TooLarge => ErrorKind::Server("object too large for cache"),
        Status::BadRequest => ErrorKind::Client("bad command line format"),
        Status::NotNumeric => ErrorKind::Client("cannot increment or decrement non-numeric value"),
        Status::Unsupported => ErrorKind::Error,
        Status::Unauthorized => ErrorKind::Client("command disabled by configuration"),
        Status::CapacityFull => ErrorKind::Server("out of memory storing object"),
        Status::Overloaded => ErrorKind::Server("server is overloaded"),
        Status::NotStored => ErrorKind::Server("not stored"),
        _ => ErrorKind::Server("internal error"),
    }
}

/// One part of `stats`.
#[derive(Debug, Clone, Copy, PartialEq, Eq, Structural)]
pub enum StatsSection {
    General,
    Settings,
    Items,
    Slabs,
    Conns,
    Sizes,
    Empty,
}

/// An `lru_crawler` dump. `selected` says whether the class it names is the one
/// class there is.
#[derive(Debug, Clone, Copy, PartialEq, Eq, Structural)]
pub struct Dump {
    pub selected: bool,
}

/// A `stats cachedump`, with its page size.
#[derive(Debug, Clone, Copy, PartialEq, Eq, Structural)]
pub struct CacheDump {
    pub selected: bool,
    pub limit: usize,
}

/// The grammar a command came from, which is how its reply is worded.
#[derive(Debug, Clone, Copy, PartialEq, Eq, Structural)]
pub enum ResponseStyle {
    /// `get` or `gets`.
    Retrieval { with_cas: bool },
    /// `set` and its siblings.
    Storage,
    /// The meta dialect's `mg`.
    MetaGet,
    /// Any other command of the meta dialect.
    Meta,
    Stats(StatsSection),
    Dump(Dump),
    CacheDump(CacheDump),
    /// Every other classic command.
    Plain,
}

/// A parsed command.
#[derive(Debug)]
pub struct Parsed<'a> {
    pub command: Command<'a>,
    pub style: ResponseStyle,
    /// Suppresses the response but never the work.
    pub noreply: bool,
}

/// The path a command takes.
#[allow(inconsistent_fields)]
#[derive(Debug)]
pub enum Route<'a> {
    /// The connection has not authenticated, and must.
    Unauthenticated,
    /// Pages the listing until it runs out.
    Dump(Dump),
    /// One page of the listing.
    CacheDump(CacheDump),
    /// Counters that describe the server rather than the cache.
    Section(StatsSection),
    /// One key, rendered straight out of the store as a `get` line.
    Retrieve { key: Key<'a>, with_cas: bool },
    /// One key, rendered straight out of the store as a meta line.
    MetaGet { key: Key<'a> },
    /// Executed like any other command.
    Execute,
}

/// The path a command takes.
///
/// Only a retrieval of exactly one key is rendered straight out of the store,
/// and only where there is somewhere to render to. The command decides, not the
/// style alone: a get-and-touch shares the style and writes.
pub open spec fn routed<'a>(gated: bool, parsed: Parsed<'a>) -> Route<'a> {
    if gated {
        Route::Unauthenticated
    } else {
        match (parsed.style, parsed.command) {
            (ResponseStyle::Dump(dump), _) => Route::Dump(dump),
            (ResponseStyle::CacheDump(dump), _) => Route::CacheDump(dump),
            (ResponseStyle::Stats(section), _) if section != StatsSection::General =>
                Route::Section(section),
            (ResponseStyle::Retrieval { with_cas }, Command::GetMany(keys)) if keys@.len() == 1
                && !parsed.noreply => Route::Retrieve { key: keys@[0], with_cas },
            (ResponseStyle::MetaGet, Command::Get { key }) if !parsed.noreply =>
                Route::MetaGet { key },
            _ => Route::Execute,
        }
    }
}

/// Whether a path is one that a command asked for.
///
/// A connection that has to authenticate gets nowhere else. A shortcut is for the
/// one key that the command names, where an answer is wanted, and shows a token
/// exactly where tokens were asked for. The pages and sections are those that were
/// named.
pub open spec fn leads_where_asked<'a>(gated: bool, parsed: Parsed<'a>, route: Route<'a>) -> bool {
    &&& route is Unauthenticated <==> gated
    &&& match route {
        Route::Unauthenticated => true,
        Route::Dump(dump) => parsed.style == ResponseStyle::Dump(dump),
        Route::CacheDump(dump) => parsed.style == ResponseStyle::CacheDump(dump),
        Route::Section(section) => parsed.style == ResponseStyle::Stats(section) && section
            != StatsSection::General,
        Route::Retrieve { key, with_cas } => {
            &&& parsed.style == ResponseStyle::Retrieval { with_cas }
            &&& parsed.command matches Command::GetMany(keys) && keys@ == seq![key]
            &&& !parsed.noreply
        },
        Route::MetaGet { key } => {
            &&& parsed.style is MetaGet
            &&& parsed.command == Command::Get { key }
            &&& !parsed.noreply
        },
        Route::Execute => {
            &&& parsed.style !is Dump
            &&& parsed.style !is CacheDump
            &&& parsed.style matches ResponseStyle::Stats(section) ==> section
                == StatsSection::General
        },
    }
}

/// A command takes the path it asked for, and no shortcut is ever taken by one that
/// may write.
pub proof fn a_command_goes_where_it_asked<'a>(gated: bool, parsed: Parsed<'a>)
    ensures
        leads_where_asked(gated, parsed, routed(gated, parsed)),
        routed(gated, parsed) is Retrieve || routed(gated, parsed) is MetaGet
            ==> parsed.command.reads_only(),
{
    if let Command::GetMany(keys) = parsed.command {
        if keys@.len() == 1 {
            assert(keys@ =~= seq![keys@[0]]);
        }
    }
}

/// Whether a style belongs to the meta dialect.
pub open spec fn is_meta(style: ResponseStyle) -> bool {
    style is Meta || style is MetaGet
}

/// Chooses the path of a command, counting what only this dialect can tell: a
/// meta command, and a section that never reaches the shared executor.
pub fn route<'a>(metrics: &mut ServerMetrics, gated: bool, parsed: &Parsed<'a>) -> (route: Route<
    'a,
>)
    ensures
        route == routed(gated, *parsed),
        leads_where_asked(gated, *parsed, route),
        *final(metrics) == (if !gated && is_meta(parsed.style) {
            ServerMetrics {
                outcomes: crate::metrics::OutcomeMetrics {
                    meta_commands: old(metrics).outcomes.meta_commands.wrapping_add(1),
                    ..old(metrics).outcomes
                },
                ..*old(metrics)
            }
        } else if route is Section {
            old(metrics).with_other()
        } else {
            *old(metrics)
        }),
{
    proof {
        a_command_goes_where_it_asked(gated, *parsed);
    }
    if gated {
        return Route::Unauthenticated;
    }
    match parsed.style {
        ResponseStyle::Dump(dump) => Route::Dump(dump),
        ResponseStyle::CacheDump(dump) => Route::CacheDump(dump),
        ResponseStyle::Stats(section) => {
            if section != StatsSection::General {
                metrics.other();
                Route::Section(section)
            } else {
                Route::Execute
            }
        },
        ResponseStyle::Retrieval { with_cas } => {
            if let Command::GetMany(keys) = &parsed.command {
                if keys.len() == 1 && !parsed.noreply {
                    return Route::Retrieve { key: keys[0], with_cas };
                }
            }
            Route::Execute
        },
        ResponseStyle::MetaGet => {
            metrics.outcomes.meta_commands = metrics.outcomes.meta_commands.wrapping_add(1);
            if let Command::Get { key } = &parsed.command {
                if !parsed.noreply {
                    return Route::MetaGet { key: *key };
                }
            }
            Route::Execute
        },
        ResponseStyle::Meta => {
            metrics.outcomes.meta_commands = metrics.outcomes.meta_commands.wrapping_add(1);
            Route::Execute
        },
        _ => Route::Execute,
    }
}

/// What is written back for a command.
#[derive(Debug, Clone, Copy)]
pub enum Answer {
    Nothing,
    /// The reply, in the command's style.
    Reply,
    /// The reply to a successful authentication.
    Authenticated,
    /// `END`, after whatever values were rendered.
    RetrievalEnd,
    /// The meta dialect's miss.
    MetaMiss,
    Error(ErrorKind),
}

/// Whether an answer is the error line of a status.
pub open spec fn is_error(answer: Answer, text: ErrorText) -> bool {
    answer matches Answer::Error(kind) && kind@ == text
}

/// Whether what is written after a shortcut leaves the client neither waiting nor
/// answered twice: a hit has written its own line, and a failure is told as one.
pub open spec fn ends_a_shortcut(rendered: Result<bool, Failed>, answer: Answer) -> bool {
    &&& rendered is Err <==> answer is Error
    &&& answer !is Reply && answer !is Authenticated
    &&& rendered matches Err(failed) ==> is_error(answer, error_text(failed.status))
}

/// Whether what is written for an executed command is what was asked for: nothing where
/// no answer is wanted, whatever became of it, and otherwise its reply or its error. The
/// connection ends exactly where that was the command.
pub open spec fn answers_as_asked(
    noreply: bool,
    outcome: Result<Reply, Failed>,
    out: (Answer, Closing),
) -> bool {
    &&& out.0 is Nothing <==> noreply
    &&& out.0 is Reply ==> outcome is Ok
    &&& out.0 is Error ==> (outcome matches Err(failed) && is_error(
        out.0,
        error_text(failed.status),
    ))
    &&& out.0 is Nothing || out.0 is Reply || out.0 is Error
    &&& out.1 == Closing::Yes <==> (outcome matches Ok(reply) && reply is Closing)
}

/// Ends a retrieval. A miss writes no line at all, so both outcomes end alike.
pub fn retrieve_answer(rendered: Result<bool, Failed>) -> (answer: Answer)
    ensures
        match rendered {
            Ok(_) => answer is RetrievalEnd,
            Err(failed) => is_error(answer, error_text(failed.status)),
        },
        ends_a_shortcut(rendered, answer),
        answer !is Nothing,
{
    match rendered {
        Ok(_) => Answer::RetrievalEnd,
        Err(failed) => Answer::Error(memcached_error(failed.status)),
    }
}

/// Ends a meta retrieval. A hit has already been rendered.
pub fn meta_get_answer(rendered: Result<bool, Failed>) -> (answer: Answer)
    ensures
        match rendered {
            Ok(true) => answer is Nothing,
            Ok(false) => answer is MetaMiss,
            Err(failed) => is_error(answer, error_text(failed.status)),
        },
        ends_a_shortcut(rendered, answer),
        answer is Nothing <==> rendered == Ok::<bool, Failed>(true),
{
    match rendered {
        Ok(true) => Answer::Nothing,
        Ok(false) => Answer::MetaMiss,
        Err(failed) => Answer::Error(memcached_error(failed.status)),
    }
}

/// What is written for an executed command, and whether the connection ends.
pub fn executed_answer(noreply: bool, outcome: &Result<Reply, Failed>) -> (out: (Answer, Closing))
    ensures
        out.1 == (if outcome == Ok::<Reply, Failed>(Reply::Closing) {
            Closing::Yes
        } else {
            Closing::No
        }),
        if noreply {
            out.0 is Nothing
        } else {
            match outcome {
                Ok(_) => out.0 is Reply,
                Err(failed) => is_error(out.0, error_text(failed.status)),
            }
        },
        answers_as_asked(noreply, *outcome, out),
{
    let closing = match outcome {
        Ok(Reply::Closing) => Closing::Yes,
        _ => Closing::No,
    };
    let answer = if noreply {
        Answer::Nothing
    } else {
        match outcome {
            Ok(_) => Answer::Reply,
            Err(failed) => Answer::Error(memcached_error(failed.status)),
        }
    };
    (answer, closing)
}

/// What a command that does not parse is answered with.
///
/// From an unauthenticated connection it is still an unauthenticated command, so
/// a stranger cannot probe which commands the server understands.
pub open spec fn unparsed_text(gated: bool, response: ErrorText) -> ErrorText {
    if gated {
        ErrorText::Client("unauthenticated"@)
    } else {
        response
    }
}

/// What the parser says of a command reaches a client that may know it, and no other.
pub proof fn only_a_known_client_is_told_what_is_wrong(response: ErrorText, other: ErrorText)
    ensures
        unparsed_text(false, response) == response,
        unparsed_text(true, response) == unparsed_text(true, other),
{
}

/// The error line of a command that does not parse.
pub fn unparsed(metrics: &mut ServerMetrics, gated: bool, response: ErrorKind) -> (kind: ErrorKind)
    ensures
        kind@ == unparsed_text(gated, response@),
        *final(metrics) == (if gated {
            old(metrics).with_auth_refused()
        } else {
            *old(metrics)
        }),
{
    if gated {
        metrics.auth_refused();
        ErrorKind::Client("unauthenticated")
    } else {
        response
    }
}

/// The user and password of an authentication block: what stands before and
/// after its one space, neither of them empty.
pub open spec fn credential_of(block: Seq<u8>) -> Option<(Seq<u8>, Seq<u8>)> {
    let k = text::first_space(block) as int;
    let secret = block.skip(k + 1);
    if k >= block.len() || k == 0 || secret.len() == 0 || secret.contains(0x20u8) {
        None
    } else {
        Some((block.take(k), secret))
    }
}

/// Splits an authentication block into user and password.
///
/// Exactly one space separates them; a password may not contain one.
pub fn split_credential(block: &[u8]) -> (split: Option<(&[u8], &[u8])>)
    ensures
        match (split, credential_of(block@)) {
            (Some((name, secret)), Some(expected)) => name@ == expected.0 && secret@ == expected.1,
            (None, None) => true,
            _ => false,
        },
{
    let space = text::find_space(block, 0);
    proof {
        text::lemma_first_space(block@, space as int);
    }
    if space == block.len() || space == 0 || space + 1 == block.len() {
        return None;
    }
    let second = text::find_space(block, space + 1);
    let ghost secret = block@.skip(space + 1);
    if second < block.len() {
        assert(secret[second - space - 1] == 0x20);
        return None;
    }
    assert(!secret.contains(0x20u8)) by {
        if secret.contains(0x20u8) {
            let j = choose|j: int| 0 <= j < secret.len() && secret[j] == 0x20u8;
            assert(block@[j + space + 1] == 0x20);
        }
    }
    assert(block@.subrange(0, space as int) =~= block@.take(space as int));
    assert(block@.subrange(space + 1, block@.len() as int) =~= secret);
    Some((slice_subrange(block, 0, space), slice_subrange(block, space + 1, block.len())))
}

/// A user and a password written with one space between them are read back as
/// they were, where neither holds a space.
pub proof fn a_credential_block_round_trips(name: Seq<u8>, secret: Seq<u8>)
    requires
        name.len() > 0,
        secret.len() > 0,
        !name.contains(0x20u8),
        !secret.contains(0x20u8),
    ensures
        credential_of(name + seq![0x20u8] + secret) == Some((name, secret)),
{
    let block = name + seq![0x20u8] + secret;
    assert forall|j: int| 0 <= j < name.len() implies #[trigger] block[j] != 0x20 by {
        assert(name[j] == block[j]);
    }
    text::lemma_first_space(block, name.len() as int);
    assert(block.take(name.len() as int) =~= name);
    assert(block.skip(name.len() as int + 1) =~= secret);
}

/// A block is a credential exactly where it has one space, with something on either
/// side of it.
pub proof fn a_credential_block_has_one_space(block: Seq<u8>)
    ensures
        credential_of(block) matches Some((name, secret)) ==> {
            &&& block == name + seq![0x20u8] + secret
            &&& name.len() > 0 && !name.contains(0x20u8)
            &&& secret.len() > 0 && !secret.contains(0x20u8)
        },
{
    if let Some((name, secret)) = credential_of(block) {
        text::lemma_at_first_space(block);
        text::lemma_before_first_space(block);
        assert(block =~= name + seq![0x20u8] + secret);
        if name.contains(0x20u8) {
            let j = choose|j: int| 0 <= j < name.len() && name[j] == 0x20u8;
            assert(block[j] == name[j]);
        }
    }
}

/// What an unauthenticated connection's command comes to.
#[verifier::ext_equal]
pub enum Admission {
    /// `quit`: hanging up is not a use of the cache.
    Leave,
    /// Not an authentication at all.
    Refused,
    /// A block that is not `<user> <pass>`.
    Malformed,
    Accepted,
    Rejected,
}

/// What a command of an unauthenticated connection comes to: only a plain `set`
/// is an authentication attempt, and its data block holds the credential.
pub open spec fn admission(command: Command, policy: auth::Policy) -> Admission {
    match command {
        Command::Quit => Admission::Leave,
        Command::SetOne(set) if set.mode == SetMode::Always => match credential_of(set.value@) {
            None => Admission::Malformed,
            Some((name, secret)) => if policy.accepts(name, secret) {
                Admission::Accepted
            } else {
                Admission::Rejected
            },
        },
        _ => Admission::Refused,
    }
}

/// A stranger gets in with a plain `set` of a user and a password that the table
/// accepts, one space between them, and in no other way.
pub proof fn a_stranger_gets_in_with_a_credential_only(
    command: Command,
    policy: auth::Policy,
    name: Seq<u8>,
    secret: Seq<u8>,
)
    requires
        name.len() > 0,
        secret.len() > 0,
        !name.contains(0x20u8),
        !secret.contains(0x20u8),
    ensures
        command is SetOne && command->SetOne_0.mode == SetMode::Always
            && command->SetOne_0.value@ == name + seq![0x20u8] + secret ==> (admission(
            command,
            policy,
        ) is Accepted <==> policy.accepts(name, secret)),
        admission(command, policy) is Accepted ==> command is SetOne
            && command->SetOne_0.mode == SetMode::Always && exists|n: Seq<u8>, s: Seq<u8>|
            #[trigger] policy.accepts(n, s) && command->SetOne_0.value@ == n + seq![0x20u8] + s,
        admission(command, policy) is Leave <==> command is Quit,
{
    a_credential_block_round_trips(name, secret);
    if let Command::SetOne(set) = command {
        if let Some((n, s)) = credential_of(set.value@) {
            let k = text::first_space(set.value@) as int;
            text::lemma_at_first_space(set.value@);
            assert(set.value@ =~= n + seq![0x20u8] + s);
        }
    }
}

/// The reason an unauthenticated command is answered with.
pub open spec fn admission_reason(a: Admission) -> Seq<char> {
    match a {
        Admission::Malformed => "bad authentication token format"@,
        Admission::Rejected => "authentication failure"@,
        _ => "unauthenticated"@,
    }
}

/// A stranger is told the same of every command that is no attempt to
/// authenticate and no `quit`, and of bytes that are no command at all: nothing
/// is learned of which commands this server understands.
pub proof fn a_stranger_cannot_probe(
    command: Command,
    policy: auth::Policy,
    response: ErrorText,
)
    requires
        command !is Quit,
        !(command is SetOne && command->SetOne_0.mode == SetMode::Always),
    ensures
        admission(command, policy) is Refused,
        ErrorText::Client(admission_reason(admission(command, policy))) == unparsed_text(
            true,
            response,
        ),
{
}

/// Handles a command on a connection that has not authenticated.
///
/// The only thing accepted is upstream's ASCII authentication, which tunnels
/// credentials through a `set` whose data block is `<user> <pass>`.
pub fn execute_unauthenticated(
    metrics: &mut ServerMetrics,
    conn: &mut ConnAuth,
    table: &Auth,
    parsed: &Parsed,
) -> (out: (Answer, Closing))
    requires
        table.wf(),
    ensures
        ({
            let a = admission(parsed.command, table@);
            &&& out.1 == (if a is Leave {
                Closing::Yes
            } else {
                Closing::No
            })
            &&& if a is Leave || parsed.noreply {
                out.0 is Nothing
            } else if a is Accepted {
                out.0 is Authenticated
            } else {
                is_error(out.0, ErrorText::Client(admission_reason(a)))
            }
            &&& *final(metrics) == (match a {
                Admission::Leave => *old(metrics),
                Admission::Refused => old(metrics).with_auth_refused(),
                Admission::Accepted => old(metrics).with_auth_ok(),
                Admission::Malformed | Admission::Rejected => old(metrics).with_auth_failed(),
            })
            &&& match a {
                Admission::Accepted => {
                    &&& final(conn).who() is Some
                    &&& vstd::utf8::encode_utf8(final(conn).who()->0) == (credential_of(
                        parsed.command->SetOne_0.value@,
                    )->0).0
                    &&& final(conn).failure_count() == old(conn).failure_count()
                },
                Admission::Malformed | Admission::Rejected => {
                    &&& final(conn).who() == old(conn).who()
                    &&& final(conn).failure_count() == auth::one_more(old(conn).failure_count())
                },
                _ => *final(conn) == *old(conn),
            }
        }),
{
    let set = match &parsed.command {
        Command::Quit => {
            return (Answer::Nothing, Closing::Yes);
        },
        Command::SetOne(set) => {
            if set.mode != SetMode::Always {
                metrics.auth_refused();
                return (refuse(parsed.noreply, "unauthenticated"), Closing::No);
            }
            set
        },
        _ => {
            metrics.auth_refused();
            return (refuse(parsed.noreply, "unauthenticated"), Closing::No);
        },
    };
    let (name, secret) = match split_credential(set.value) {
        Some(split) => split,
        None => {
            conn.fail();
            metrics.auth_failed();
            return (refuse(parsed.noreply, "bad authentication token format"), Closing::No);
        },
    };
    match table.verify(name, secret) {
        Some(identity) => {
            conn.succeed(identity);
            metrics.auth_ok();
            if parsed.noreply {
                (Answer::Nothing, Closing::No)
            } else {
                (Answer::Authenticated, Closing::No)
            }
        },
        None => {
            conn.fail();
            metrics.auth_failed();
            (refuse(parsed.noreply, "authentication failure"), Closing::No)
        },
    }
}

fn refuse(noreply: bool, reason: &'static str) -> (answer: Answer)
    ensures
        if noreply {
            answer is Nothing
        } else {
            is_error(answer, ErrorText::Client(reason@))
        },
{
    if noreply {
        Answer::Nothing
    } else {
        Answer::Error(ErrorKind::Client(reason))
    }
}

/// A dump in progress: how much it has walked, how much it may, and where the
/// next page starts.
#[derive(Debug)]
pub struct DumpRun {
    pub scanned: u64,
    pub budget: u64,
    pub cursor: Option<Vec<u8>>,
}

/// How a dump starts.
#[derive(Debug)]
pub enum DumpStart {
    Refused(Failed),
    /// Acknowledged and ended: a class this server does not have holds nothing.
    Empty,
    /// Acknowledged, and its first page is due.
    Page(DumpRun),
}

/// Starts an `lru_crawler` dump.
///
/// Whether listing is enabled is checked even when the class selects nothing: "this
/// command is disabled" is true regardless of which class was named.
pub fn begin_dump(protocol: &ProtocolConfig, dump: Dump) -> (start: DumpStart)
    ensures
        if !protocol.listing_enabled {
            start == DumpStart::Refused(Failed::bare(Status::Unauthorized))
        } else if !dump.selected {
            start is Empty
        } else {
            start == DumpStart::Page(
                DumpRun {
                    scanned: 0,
                    budget: protocol.listing_max_scan as u64,
                    cursor: None,
                },
            )
        },
        start is Refused <==> !protocol.listing_enabled,
        start matches DumpStart::Page(run) ==> dump.selected && run.cursor is None && run.scanned
            == 0,
{
    match listing_gate(protocol) {
        Err(failed) => {
            return DumpStart::Refused(failed);
        },
        Ok(_) => {},
    }
    if !dump.selected {
        return DumpStart::Empty;
    }
    DumpStart::Page(
        DumpRun { scanned: 0, budget: protocol.listing_max_scan as u64, cursor: None },
    )
}

/// What a dump does after a page.
#[derive(Debug, Clone, Copy, PartialEq, Eq, Structural)]
pub enum DumpNext {
    /// More to walk, and budget left to walk it with.
    Page,
    /// Cut short: an error takes the terminator's place, so that a truncated
    /// dump cannot be mistaken for a complete one.
    Cut,
    /// Walked to the end: the terminator follows.
    Finished,
}

/// Whether a dump goes on honestly: it is finished where the listing is and nowhere
/// else, it goes on from where the page stopped, and it never asks for another page once
/// it has walked as much as it may.
pub open spec fn pages_honestly(
    before: DumpRun,
    scanned: u64,
    cursor: Option<Vec<u8>>,
    after: DumpRun,
    next: DumpNext,
) -> bool {
    &&& next == DumpNext::Finished <==> cursor is None
    &&& next == DumpNext::Page ==> before.scanned + scanned < before.budget && after.cursor
        == cursor
    &&& next == DumpNext::Cut ==> before.scanned + scanned >= before.budget || before.scanned
        + scanned > u64::MAX
    &&& after.budget == before.budget
    &&& after.scanned >= before.scanned
}

/// The error a dump is cut short with.
pub fn dump_cut_error() -> (kind: ErrorKind)
    ensures
        kind@ == ErrorText::Server(
            "dump exceeded the scan budget; use SCAN or LIST_KEYS to page the keyspace"@,
        ),
{
    ErrorKind::Server("dump exceeded the scan budget; use SCAN or LIST_KEYS to page the keyspace")
}

impl DumpRun {
    /// The page to ask for next.
    pub fn request(&self, limit: usize) -> (request: ListRequest<'_>)
        ensures
            request.limit == limit,
            request.pattern@.len() == 0,
            request.cursor@ == (match self.cursor {
                Some(cursor) => cursor@,
                None => Seq::empty(),
            }),
    {
        let cursor: &[u8] = match &self.cursor {
            Some(cursor) => cursor.as_slice(),
            None => &[],
        };
        ListRequest { limit, cursor, pattern: &[] }
    }

    /// What follows a page that examined `scanned` records and ends at `cursor`.
    ///
    /// One dump gets one listing's budget, spent across as many pages as it
    /// needs. It is finished exactly when the listing is.
    pub fn after_page(&mut self, scanned: u64, cursor: Option<Vec<u8>>) -> (next: DumpNext)
        ensures
            final(self).budget == old(self).budget,
            final(self).scanned == (if old(self).scanned + scanned <= u64::MAX {
                (old(self).scanned + scanned) as u64
            } else {
                u64::MAX
            }),
            next == (if cursor is None {
                DumpNext::Finished
            } else if final(self).scanned < final(self).budget {
                DumpNext::Page
            } else {
                DumpNext::Cut
            }),
            pages_honestly(*old(self), scanned, cursor, *final(self), next),
            next == DumpNext::Page ==> final(self).cursor == cursor,
            next != DumpNext::Page ==> final(self).cursor == old(self).cursor,
    {
        self.scanned = self.scanned.saturating_add(scanned);
        match cursor {
            None => DumpNext::Finished,
            Some(at) => if self.scanned < self.budget {
                self.cursor = Some(at);
                DumpNext::Page
            } else {
                DumpNext::Cut
            },
        }
    }
}

/// The page in a reply to a listing. Any other reply is an internal error.
pub fn listing_page(reply: Reply) -> (page: Result<Listing, Failed>)
    ensures
        match reply {
            Reply::Listing(listing) => page == Ok::<Listing, Failed>(listing),
            _ => page == Err::<Listing, Failed>(Failed::bare(Status::Internal)),
        },
{
    match reply {
        Reply::Listing(listing) => Ok(listing),
        _ => Err(Failed::status(Status::Internal)),
    }
}

/// How `stats cachedump` starts.
#[derive(Debug, Clone, Copy)]
pub enum CacheDumpStart {
    Refused(Failed),
    Empty,
    /// One page of this size, from the beginning.
    Page(usize),
}

/// Starts a `stats cachedump`: one page, no acknowledgement and no cursor.
pub fn begin_cachedump(protocol: &ProtocolConfig, dump: CacheDump) -> (start: CacheDumpStart)
    ensures
        start == (if !protocol.listing_enabled {
            CacheDumpStart::Refused(Failed::bare(Status::Unauthorized))
        } else if !dump.selected {
            CacheDumpStart::Empty
        } else {
            CacheDumpStart::Page(dump.limit)
        }),
        start is Refused <==> !protocol.listing_enabled,
        start matches CacheDumpStart::Page(limit) ==> limit == dump.limit && dump.selected,
{
    match listing_gate(protocol) {
        Err(failed) => CacheDumpStart::Refused(failed),
        Ok(_) => if dump.selected {
            CacheDumpStart::Page(dump.limit)
        } else {
            CacheDumpStart::Empty
        },
    }
}

} // verus!
