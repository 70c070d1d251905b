//! Command execution: the only place that maps domain outcomes onto wire status
//! codes.
//!
//! A command is executed in three moves. `plan` decides what to ask of the store,
//! or answers outright. The program performs that call. `execute` turns what came
//! back into a reply, and records it.
use crate::config::ProtocolConfig;
use crate::domain;
use crate::domain::{
    Applied, Arithmetic, BatchGuard, ClusterInfo, Command, CoreError, Deadline, ExpireGuard, Key,
    ListRequest, Listing, Reply, ServerInfo, SetRequest, Status, Stored, TagGeneration, TtlChange,
    Value,
};
use crate::metrics::{CommandKind, Dialect, ErrorClass, ServerMetrics};
use crate::tags;
use vstd::prelude::*;

verus! {

#[derive(Debug, Clone, Copy, PartialEq, Eq, Structural)]
pub enum Closing {
    Yes,
    No,
}

/// Why a command could not be executed, classified once for every dialect.
///
/// `cause` is the domain failure underneath the status, carried because Redis
/// draws distinctions memcached has no vocabulary for.
#[derive(Debug, Clone, Copy, PartialEq, Eq, Structural)]
pub struct Failed {
    pub status: Status,
    pub cause: Option<CoreError>,
}

impl Failed {
    /// A failure with no domain cause worth reporting: capacity, overload, a
    /// gate, an internal error.
    pub fn status(status: Status) -> (failed: Self)
        ensures
            failed == Failed::bare(status),
    {
        Failed { status, cause: None }
    }

    /// A failure with no domain cause.
    pub open spec fn bare(status: Status) -> Failed {
        Failed { status, cause: None }
    }
}

/// How the store can fail.
#[derive(Debug, Clone, Copy, PartialEq, Eq, Structural)]
pub enum StoreError {
    CapacityFull,
    Overloaded,
    ShuttingDown,
    Unsupported,
    Core(CoreError),
    TagLimit,
    /// Anything else: an engine failure the client learns nothing about.
    Other,
}

/// The status a client sees for a storage failure.
///
/// A non-numeric value is a client error with its own status; the arithmetic
/// failures memcached cannot name share it, and Redis tells them apart from
/// `cause`. Nothing about the server's internals leaks onto the wire.
pub open spec fn classified(e: StoreError) -> Failed {
    match e {
        StoreError::CapacityFull | StoreError::TagLimit => Failed::bare(Status::CapacityFull),
        StoreError::Overloaded | StoreError::ShuttingDown => Failed::bare(Status::Overloaded),
        StoreError::Unsupported => Failed::bare(Status::Unsupported),
        StoreError::Core(cause) => Failed {
            status: match cause {
                CoreError::ValueTooLarge | CoreError::KeyTooLong => Status::TooLarge,
                CoreError::NotAnInteger | CoreError::NotAFloat | CoreError::Overflow
                | CoreError::NotFinite => Status::NotNumeric,
                CoreError::EmptyKey | CoreError::Invalid => Status::BadRequest,
            },
            cause: Some(cause),
        },
        StoreError::Other => Failed::bare(Status::Internal),
    }
}

/// Maps a storage failure onto the status the client sees.
pub fn to_failed(err: StoreError) -> (failed: Failed)
    ensures
        failed == classified(err),
{
    match err {
        StoreError::CapacityFull | StoreError::TagLimit => Failed::status(Status::CapacityFull),
        StoreError::Overloaded | StoreError::ShuttingDown => Failed::status(Status::Overloaded),
        StoreError::Unsupported => Failed::status(Status::Unsupported),
        StoreError::Core(cause) => {
            let status = match cause {
                CoreError::ValueTooLarge | CoreError::KeyTooLong => Status::TooLarge,
                CoreError::NotAnInteger | CoreError::NotAFloat | CoreError::Overflow
                | CoreError::NotFinite => Status::NotNumeric,
                CoreError::EmptyKey | CoreError::Invalid => Status::BadRequest,
            };
            Failed { status, cause: Some(cause) }
        },
        StoreError::Other => Failed::status(Status::Internal),
    }
}

/// What a server is willing to do, and what it says of itself.
#[derive(Debug, Clone, Copy)]
pub struct Gates {
    pub protocol_version: u16,
    pub info: ServerInfo,
    pub protocol: ProtocolConfig,
}

/// One call on the store, or on the server about itself.
#[allow(inconsistent_fields)]
#[derive(Debug)]
pub enum StoreCall<'c, 'a> {
    Get(Key<'a>),
    GetMany(&'c Vec<Key<'a>>),
    Store(&'c SetRequest<'a>),
    GetAndTouch { keys: &'c Vec<Key<'a>>, ttl_secs: u32 },
    Deadline(Key<'a>),
    Deadlines(&'c Vec<Key<'a>>),
    Expire { key: Key<'a>, ttl: TtlChange, guard: ExpireGuard },
    Append { key: Key<'a>, suffix: &'a [u8] },
    Arithmetic(&'c Arithmetic<'a>),
    Counters,
    Version,
    SetMany(&'c Vec<SetRequest<'a>>),
    SetManyIf { sets: &'c Vec<SetRequest<'a>>, guard: BatchGuard },
    Delete(Key<'a>),
    DeleteMany(&'c Vec<Key<'a>>),
    Touch { key: Key<'a>, ttl_secs: u32 },
    DeleteByTag(&'a [u8]),
    TagGenerations,
    ClusterView,
    Flush,
    ListKeys { request: ListRequest<'a>, max_scan: usize },
    ListTags(ListRequest<'a>),
}

/// What executing a command comes down to.
#[derive(Debug)]
pub enum Plan<'c, 'a> {
    /// Answered without asking anybody.
    Answer(Result<Reply, Failed>),
    /// Answered by what this call returns.
    Ask(StoreCall<'c, 'a>),
}

/// Refuses a listing when enumeration is not enabled here.
///
/// Separate from the authentication gate and not redundant with it: that one
/// decides who may connect, this one what any connected client may do.
pub fn listing_gate(protocol: &ProtocolConfig) -> (gate: Result<(), Failed>)
    ensures
        gate == (if protocol.listing_enabled {
            Ok::<(), Failed>(())
        } else {
            Err(Failed::bare(Status::Unauthorized))
        }),
{
    if !protocol.listing_enabled {
        return Err(Failed::status(Status::Unauthorized));
    }
    Ok(())
}

/// What a command asks of the store.
///
/// `HELLO` answers a client of this server's protocol version with what the
/// server is, and any other with `Unsupported`. `FLUSH` and the listings are
/// refused unless they were deliberately enabled.
pub open spec fn planned<'c, 'a>(command: &'c Command<'a>, gates: Gates) -> Plan<'c, 'a> {
    match command {
        Command::Ping => Plan::Answer(Ok(Reply::Pong)),
        Command::Hello { protocol_version } => Plan::Answer(
            if *protocol_version == gates.protocol_version {
                Ok(Reply::Hello(gates.info))
            } else {
                Err(Failed::bare(Status::Unsupported))
            },
        ),
        Command::Get { key } => Plan::Ask(StoreCall::Get(*key)),
        Command::GetMany(keys) => Plan::Ask(StoreCall::GetMany(keys)),
        Command::SetOne(set) => Plan::Ask(StoreCall::Store(set)),
        Command::GetAndTouch { keys, ttl_secs } => Plan::Ask(
            StoreCall::GetAndTouch { keys, ttl_secs: *ttl_secs },
        ),
        Command::Deadline { key } => Plan::Ask(StoreCall::Deadline(*key)),
        Command::Deadlines(keys) => Plan::Ask(StoreCall::Deadlines(keys)),
        Command::Expire { key, ttl, guard } => Plan::Ask(
            StoreCall::Expire { key: *key, ttl: *ttl, guard: *guard },
        ),
        Command::Append { key, suffix } => Plan::Ask(
            StoreCall::Append { key: *key, suffix: *suffix },
        ),
        Command::Arithmetic(op) => Plan::Ask(StoreCall::Arithmetic(op)),
        Command::Stats => Plan::Ask(StoreCall::Counters),
        Command::Version => Plan::Ask(StoreCall::Version),
        Command::Quit => Plan::Answer(Ok(Reply::Closing)),
        Command::SetMany { sets, guard } => match guard {
            BatchGuard::Always => Plan::Ask(StoreCall::SetMany(sets)),
            _ => Plan::Ask(StoreCall::SetManyIf { sets, guard: *guard }),
        },
        Command::Delete { key } => Plan::Ask(StoreCall::Delete(*key)),
        Command::DeleteMany(keys) => Plan::Ask(StoreCall::DeleteMany(keys)),
        Command::Touch { key, ttl_secs } => Plan::Ask(
            StoreCall::Touch { key: *key, ttl_secs: *ttl_secs },
        ),
        Command::DeleteByTag { tag } => Plan::Ask(StoreCall::DeleteByTag(*tag)),
        Command::TagSync { .. } => Plan::Ask(StoreCall::TagGenerations),
        Command::Cluster => Plan::Ask(StoreCall::ClusterView),
        Command::Flush => if gates.protocol.flush_enabled {
            Plan::Ask(StoreCall::Flush)
        } else {
            Plan::Answer(Err(Failed::bare(Status::Unauthorized)))
        },
        Command::ListKeys(request) => if gates.protocol.listing_enabled {
            Plan::Ask(
                StoreCall::ListKeys {
                    request: *request,
                    max_scan: gates.protocol.listing_max_scan,
                },
            )
        } else {
            Plan::Answer(Err(Failed::bare(Status::Unauthorized)))
        },
        Command::ListTags(request) => if gates.protocol.listing_enabled {
            Plan::Ask(StoreCall::ListTags(*request))
        } else {
            Plan::Answer(Err(Failed::bare(Status::Unauthorized)))
        },
    }
}

/// Whether a call leaves the store as it is, whatever it finds there.
pub open spec fn only_reads(call: StoreCall) -> bool {
    match call {
        StoreCall::Get(_) | StoreCall::GetMany(_) | StoreCall::Deadline(_)
        | StoreCall::Deadlines(_) | StoreCall::Counters | StoreCall::Version
        | StoreCall::TagGenerations | StoreCall::ClusterView | StoreCall::ListKeys { .. }
        | StoreCall::ListTags(_) => true,
        _ => false,
    }
}

/// Whether a command changes what the store holds by the call it is planned as. A
/// tag exchange merges afterwards, and a listing only walks.
pub open spec fn writes(command: Command) -> bool {
    &&& !command.reads_only()
    &&& command !is TagSync
    &&& command !is ListKeys
    &&& command !is ListTags
}

/// A command that writes is planned as a call that writes, and one that reads never
/// is. A listing asks for the page that was named, within the bound on how much one
/// may walk.
pub proof fn a_plan_writes_where_its_command_does<'c, 'a>(command: &'c Command<'a>, gates: Gates)
    ensures
        planned(command, gates) matches Plan::Ask(call) ==> (only_reads(call) <==> !writes(
            *command,
        )),
        command matches Command::ListKeys(request) ==> (planned(command, gates) matches Plan::Ask(
            call,
        ) ==> call == (StoreCall::ListKeys {
            request: *request,
            max_scan: gates.protocol.listing_max_scan,
        })),
        command matches Command::ListTags(request) ==> (planned(command, gates) matches Plan::Ask(
            call,
        ) ==> call == StoreCall::ListTags(*request)),
{
}

/// Decides what to ask of the store.
pub fn plan<'c, 'a>(command: &'c Command<'a>, gates: &Gates) -> (plan: Plan<'c, 'a>)
    ensures
        plan == planned(command, *gates),
        plan matches Plan::Ask(call) ==> (only_reads(call) <==> !writes(*command)),
{
    match command {
        Command::Ping => Plan::Answer(Ok(Reply::Pong)),
        Command::Hello { protocol_version } => {
            if *protocol_version != gates.protocol_version {
                return Plan::Answer(Err(Failed::status(Status::Unsupported)));
            }
            Plan::Answer(Ok(Reply::Hello(gates.info)))
        },
        Command::Get { key } => Plan::Ask(StoreCall::Get(*key)),
        Command::GetMany(keys) => Plan::Ask(StoreCall::GetMany(keys)),
        Command::SetOne(set) => Plan::Ask(StoreCall::Store(set)),
        Command::GetAndTouch { keys, ttl_secs } => Plan::Ask(
            StoreCall::GetAndTouch { keys, ttl_secs: *ttl_secs },
        ),
        Command::Deadline { key } => Plan::Ask(StoreCall::Deadline(*key)),
        Command::Deadlines(keys) => Plan::Ask(StoreCall::Deadlines(keys)),
        Command::Expire { key, ttl, guard } => Plan::Ask(
            StoreCall::Expire { key: *key, ttl: *ttl, guard: *guard },
        ),
        Command::Append { key, suffix } => Plan::Ask(
            StoreCall::Append { key: *key, suffix: *suffix },
        ),
        Command::Arithmetic(op) => Plan::Ask(StoreCall::Arithmetic(op)),
        Command::Stats => Plan::Ask(StoreCall::Counters),
        Command::Version => Plan::Ask(StoreCall::Version),
        Command::Quit => Plan::Answer(Ok(Reply::Closing)),
        Command::SetMany { sets, guard } => match guard {
            BatchGuard::Always => Plan::Ask(StoreCall::SetMany(sets)),
            _ => Plan::Ask(StoreCall::SetManyIf { sets, guard: *guard }),
        },
        Command::Delete { key } => Plan::Ask(StoreCall::Delete(*key)),
        Command::DeleteMany(keys) => Plan::Ask(StoreCall::DeleteMany(keys)),
        Command::Touch { key, ttl_secs } => Plan::Ask(
            StoreCall::Touch { key: *key, ttl_secs: *ttl_secs },
        ),
        Command::DeleteByTag { tag } => Plan::Ask(StoreCall::DeleteByTag(*tag)),
        Command::TagSync { .. } => Plan::Ask(StoreCall::TagGenerations),
        Command::Cluster => Plan::Ask(StoreCall::ClusterView),
        Command::Flush => {
            if !gates.protocol.flush_enabled {
                return Plan::Answer(Err(Failed::status(Status::Unauthorized)));
            }
            Plan::Ask(StoreCall::Flush)
        },
        Command::ListKeys(request) => match listing_gate(&gates.protocol) {
            Err(failed) => Plan::Answer(Err(failed)),
            Ok(_) => Plan::Ask(
                StoreCall::ListKeys {
                    request: *request,
                    max_scan: gates.protocol.listing_max_scan,
                },
            ),
        },
        Command::ListTags(request) => match listing_gate(&gates.protocol) {
            Err(failed) => Plan::Answer(Err(failed)),
            Ok(_) => Plan::Ask(StoreCall::ListTags(*request)),
        },
    }
}

/// What a call on the store returned.
#[derive(Debug)]
pub enum StoreAnswer {
    Value(Option<Value>),
    Values(Vec<Option<Value>>),
    Written { outcome: Stored, previous: Option<Value> },
    Deadline(Option<Deadline>),
    Deadlines(Vec<Option<Deadline>>),
    /// Whether a guarded change applied.
    Applied(bool),
    Length(u64),
    Arithmetic(Option<Applied>),
    StoredMany(Vec<u64>),
    /// Whether there was anything to act on.
    Found(bool),
    DeletedMany(Vec<bool>),
    /// The new generation of an invalidated tag, if the tag was known.
    Generation(Option<u64>),
    TagGenerations(Vec<TagGeneration>),
    ClusterView(ClusterInfo),
    Flushed(u64),
    Listing(Listing),
    Counters(Vec<(String, String)>),
    Version(String),
}

/// What is left to do once a command is answered.
#[derive(Debug)]
pub enum Effect {
    Nothing,
    /// Carry the invalidation to the peers. Only ever after the local one
    /// committed.
    Propagate { generation: u64 },
    /// Merge what the peer offered.
    Merge,
}

/// An answered command.
#[derive(Debug)]
pub struct Settled {
    pub outcome: Result<Reply, Failed>,
    pub effect: Effect,
}

/// The reply a call's return makes for a command, other than a tag exchange.
///
/// Only a write that asked for it is told what it displaced. A guard that
/// rejects a batch reports `NotStored`. A return of the wrong shape is an
/// internal error.
pub open spec fn reply_of(command: Command, answer: StoreAnswer) -> Result<Reply, Failed> {
    match (command, answer) {
        (Command::Get { .. }, StoreAnswer::Value(value)) => match value {
            Some(value) => Ok(Reply::Value(value)),
            None => Ok(Reply::NotFound),
        },
        (Command::GetMany(_), StoreAnswer::Values(values)) => Ok(Reply::Values(values)),
        (Command::GetAndTouch { .. }, StoreAnswer::Values(values)) => Ok(Reply::Values(values)),
        (Command::SetOne(set), StoreAnswer::Written { outcome, previous }) =>
            if set.return_previous {
                Ok(Reply::Swapped { outcome, previous })
            } else {
                Ok(Reply::Stored(outcome))
            },
        (Command::Deadline { .. }, StoreAnswer::Deadline(at)) => Ok(Reply::Deadline(at)),
        (Command::Deadlines(_), StoreAnswer::Deadlines(at)) => Ok(Reply::Deadlines(at)),
        (Command::Expire { .. }, StoreAnswer::Applied(yes)) => Ok(Reply::Applied(yes)),
        (Command::Append { .. }, StoreAnswer::Length(n)) => Ok(Reply::Length(n)),
        (Command::Arithmetic(_), StoreAnswer::Arithmetic(applied)) => match applied {
            Some(applied) => Ok(Reply::Arithmetic(applied)),
            None => Ok(Reply::NotFound),
        },
        (Command::Stats, StoreAnswer::Counters(counters)) => Ok(Reply::Stats(counters)),
        (Command::Version, StoreAnswer::Version(version)) => Ok(Reply::Version(version)),
        (
            Command::SetMany { guard: BatchGuard::Always, .. },
            StoreAnswer::StoredMany(cas),
        ) => Ok(Reply::StoredMany(cas)),
        (Command::Delete { .. }, StoreAnswer::Found(yes)) => if yes {
            Ok(Reply::Deleted)
        } else {
            Ok(Reply::NotFound)
        },
        (Command::DeleteMany(_), StoreAnswer::DeletedMany(hits)) => Ok(Reply::DeletedMany(hits)),
        (Command::Touch { .. }, StoreAnswer::Found(yes)) => if yes {
            Ok(Reply::Touched)
        } else {
            Ok(Reply::NotFound)
        },
        (Command::DeleteByTag { .. }, StoreAnswer::Generation(generation)) => Ok(
            Reply::Invalidated(generation is Some),
        ),
        (Command::Cluster, StoreAnswer::ClusterView(view)) => Ok(Reply::Cluster(view)),
        (Command::Flush, StoreAnswer::Flushed(n)) => Ok(Reply::Flushed(n)),
        (Command::ListKeys(_), StoreAnswer::Listing(page)) => Ok(Reply::Listing(page)),
        (Command::ListTags(_), StoreAnswer::Listing(page)) => Ok(Reply::Listing(page)),
        _ => Err(Failed::bare(Status::Internal)),
    }
}

/// Whether a settled command is what its call's return makes of it.
pub open spec fn settles(
    command: Command,
    answer: Result<StoreAnswer, StoreError>,
    max_sync: usize,
    settled: Settled,
) -> bool {
    match answer {
        Err(e) => settled.outcome == Err::<Reply, Failed>(classified(e))
            && settled.effect is Nothing,
        Ok(answer) => match (command, answer) {
            (Command::TagSync { full, entries }, StoreAnswer::TagGenerations(known)) => {
                &&& settled.outcome matches Ok(Reply::TagSync(behind))
                    && tags::views(behind@) == tags::behind(
                    full,
                    tags::offers(entries@),
                    tags::views(known@),
                    max_sync as nat,
                )
                &&& settled.effect is Merge
            },
            (
                Command::SetMany { guard, .. },
                StoreAnswer::Applied(yes),
            ) if guard != BatchGuard::Always => {
                &&& settled.effect is Nothing
                &&& if yes {
                    settled.outcome matches Ok(Reply::StoredMany(cas)) && cas@.len() == 0
                } else {
                    settled.outcome == Ok::<Reply, Failed>(Reply::Stored(Stored::NotStored))
                }
            },
            (Command::DeleteByTag { .. }, StoreAnswer::Generation(Some(generation))) => {
                &&& settled.outcome == Ok::<Reply, Failed>(Reply::Invalidated(true))
                &&& settled.effect == Effect::Propagate { generation }
            },
            (command, answer) => {
                &&& settled.outcome == reply_of(command, answer)
                &&& settled.effect is Nothing
            },
        },
    }
}

/// Turns what a call on the store returned into the reply to its command.
///
/// `max_sync` bounds how many tags one exchange with a peer may carry.
pub fn settle(
    command: &Command,
    answer: Result<StoreAnswer, StoreError>,
    max_sync: usize,
) -> (settled: Settled)
    ensures
        settles(*command, answer, max_sync, settled),
        match (command, answer) {
            (
                Command::TagSync { full, entries },
                Ok(StoreAnswer::TagGenerations(known)),
            ) => {
                &&& settled.effect is Merge
                &&& settled.outcome matches Ok(Reply::TagSync(told)) && tags::informs(
                    *full,
                    tags::offers(entries@),
                    tags::views(known@),
                    max_sync as nat,
                    tags::views(told@),
                )
            },
            _ => true,
        },
        answer matches Err(e) ==> settled.outcome is Err && settled.effect is Nothing,
{
    let answer = match answer {
        Err(e) => {
            return Settled { outcome: Err(to_failed(e)), effect: Effect::Nothing };
        },
        Ok(answer) => answer,
    };
    let mut effect = Effect::Nothing;
    let outcome = match (command, answer) {
        (Command::Get { .. }, StoreAnswer::Value(value)) => match value {
            Some(value) => Ok(Reply::Value(value)),
            None => Ok(Reply::NotFound),
        },
        (Command::GetMany(_), StoreAnswer::Values(values)) => Ok(Reply::Values(values)),
        (Command::GetAndTouch { .. }, StoreAnswer::Values(values)) => Ok(Reply::Values(values)),
        (Command::SetOne(set), StoreAnswer::Written { outcome, previous }) => {
            if set.return_previous {
                Ok(Reply::Swapped { outcome, previous })
            } else {
                Ok(Reply::Stored(outcome))
            }
        },
        (Command::Deadline { .. }, StoreAnswer::Deadline(at)) => Ok(Reply::Deadline(at)),
        (Command::Deadlines(_), StoreAnswer::Deadlines(at)) => Ok(Reply::Deadlines(at)),
        (Command::Expire { .. }, StoreAnswer::Applied(yes)) => Ok(Reply::Applied(yes)),
        (Command::Append { .. }, StoreAnswer::Length(n)) => Ok(Reply::Length(n)),
        (Command::Arithmetic(_), StoreAnswer::Arithmetic(applied)) => match applied {
            Some(applied) => Ok(Reply::Arithmetic(applied)),
            None => Ok(Reply::NotFound),
        },
        (Command::Stats, StoreAnswer::Counters(counters)) => Ok(Reply::Stats(counters)),
        (Command::Version, StoreAnswer::Version(version)) => Ok(Reply::Version(version)),
        (Command::SetMany { guard: BatchGuard::Always, .. }, StoreAnswer::StoredMany(cas)) => Ok(
            Reply::StoredMany(cas),
        ),
        (Command::SetMany { guard, .. }, StoreAnswer::Applied(yes)) => {
            if *guard == BatchGuard::Always {
                Err(Failed::status(Status::Internal))
            } else if yes {
                Ok(Reply::StoredMany(Vec::new()))
            } else {
                Ok(Reply::Stored(Stored::NotStored))
            }
        },
        (Command::Delete { .. }, StoreAnswer::Found(yes)) => if yes {
            Ok(Reply::Deleted)
        } else {
            Ok(Reply::NotFound)
        },
        (Command::DeleteMany(_), StoreAnswer::DeletedMany(hits)) => Ok(Reply::DeletedMany(hits)),
        (Command::Touch { .. }, StoreAnswer::Found(yes)) => if yes {
            Ok(Reply::Touched)
        } else {
            Ok(Reply::NotFound)
        },
        (Command::DeleteByTag { .. }, StoreAnswer::Generation(generation)) => {
            match generation {
                Some(generation) => {
                    effect = Effect::Propagate { generation };
                    Ok(Reply::Invalidated(true))
                },
                None => Ok(Reply::Invalidated(false)),
            }
        },
        (Command::TagSync { full, entries }, StoreAnswer::TagGenerations(known)) => {
            effect = Effect::Merge;
            Ok(Reply::TagSync(tags::tag_sync(*full, entries, &known, max_sync)))
        },
        (Command::Cluster, StoreAnswer::ClusterView(view)) => Ok(Reply::Cluster(view)),
        (Command::Flush, StoreAnswer::Flushed(n)) => Ok(Reply::Flushed(n)),
        (Command::ListKeys(_), StoreAnswer::Listing(page)) => Ok(Reply::Listing(page)),
        (Command::ListTags(_), StoreAnswer::Listing(page)) => Ok(Reply::Listing(page)),
        _ => Err(Failed::status(Status::Internal)),
    };
    Settled { outcome, effect }
}

/// A peer that offers its tags is told what it is behind on, as far as it asked:
/// of every tag there is where its offer was its whole table, and of no tag but
/// those it named where it was not. What it offered is merged here in either case.
pub proof fn a_tag_exchange_informs_the_peer(
    command: Command,
    known: Vec<TagGeneration>,
    max_sync: usize,
    settled: Settled,
)
    requires
        command is TagSync,
        settles(command, Ok(StoreAnswer::TagGenerations(known)), max_sync, settled),
    ensures
        settled.effect is Merge,
        settled.outcome matches Ok(Reply::TagSync(told)) && tags::informs(
            command->TagSync_full,
            tags::offers(command->TagSync_entries@),
            tags::views(known@),
            max_sync as nat,
            tags::views(told@),
        ),
{
    tags::an_answer_informs(
        command->TagSync_full,
        tags::offers(command->TagSync_entries@),
        tags::views(known@),
        max_sync as nat,
    );
}

/// A failure of the store reaches the client as a failure, and never as one of the
/// server's own making: it says whether the client's request, the server's room or
/// its load is to blame, and nothing else of what happened inside.
pub proof fn a_failed_call_is_a_failed_command(
    command: Command,
    e: StoreError,
    max_sync: usize,
    settled: Settled,
)
    requires
        settles(command, Err(e), max_sync, settled),
    ensures
        settled.effect is Nothing,
        settled.outcome matches Err(failed) && {
            &&& failed.cause == (match e {
                StoreError::Core(cause) => Some(cause),
                _ => None::<CoreError>,
            })
            &&& failed.status != Status::Success
            &&& failed.status == Status::Internal <==> e is Other
            &&& class_of(failed.status) == ErrorClass::Internal <==> e is Other
            &&& class_of(failed.status) == ErrorClass::Capacity <==> (e is CapacityFull || e
                is TagLimit)
            &&& class_of(failed.status) == ErrorClass::Overloaded <==> (e is Overloaded || e
                is ShuttingDown)
            &&& failed.status == Status::Unsupported <==> e is Unsupported
            &&& failed.status == Status::NotNumeric <==> (e matches StoreError::Core(cause)
                && (cause is NotAnInteger || cause is NotAFloat || cause is Overflow || cause
                is NotFinite))
            &&& failed.status == Status::TooLarge <==> (e matches StoreError::Core(cause) && (
            cause is ValueTooLarge || cause is KeyTooLong))
        },
{
}

/// Whether a command that answers `NotFound` was a read.
pub open spec fn is_read_command(command: Command) -> bool {
    command is Get || command is GetMany || command is GetAndTouch || command is Deadline
        || command is Deadlines
}

fn is_read(command: &Command) -> (yes: bool)
    ensures
        yes == is_read_command(*command),
{
    match command {
        Command::Get { .. } | Command::GetMany(_) | Command::GetAndTouch { .. }
        | Command::Deadline { .. } | Command::Deadlines(_) => true,
        _ => false,
    }
}

/// The class an error is counted under.
pub open spec fn class_of(status: Status) -> ErrorClass {
    match status {
        Status::CapacityFull => ErrorClass::Capacity,
        Status::Overloaded => ErrorClass::Overloaded,
        Status::Internal => ErrorClass::Internal,
        _ => ErrorClass::Client,
    }
}

/// The counters after an answered command, but for its latency.
///
/// A deadline query is a read that never copies a value. A change that was
/// skipped wrote nothing, so it is not counted as a write.
pub open spec fn counted(
    m: ServerMetrics,
    command: Command,
    outcome: Result<Reply, Failed>,
) -> ServerMetrics {
    match outcome {
        Ok(reply) => {
            let seen = ServerMetrics { outcomes: m.outcomes.observed(command, reply), ..m };
            match reply {
                Reply::Value(_) => seen.with_read(1, 0),
                Reply::Values(values) => {
                    let found = domain::count_some(values@);
                    seen.with_read(found as u64, (values@.len() - found) as u64)
                },
                Reply::Deadline(at) => if at is Some {
                    seen.with_read(1, 0)
                } else {
                    seen.with_read(0, 1)
                },
                Reply::Deadlines(at) => {
                    let live = domain::count_some(at@);
                    seen.with_read(live as u64, (at@.len() - live) as u64)
                },
                Reply::NotFound => if is_read_command(command) {
                    seen.with_read(0, 1)
                } else {
                    seen.with_other()
                },
                Reply::Arithmetic(applied) => if applied.wrote {
                    seen.with_write()
                } else {
                    seen.with_other()
                },
                Reply::Applied(yes) => if yes {
                    seen.with_write()
                } else {
                    seen.with_other()
                },
                Reply::Stored(_) | Reply::Swapped { .. } | Reply::StoredMany(_) | Reply::Length(_)
                | Reply::Deleted | Reply::DeletedMany(_) | Reply::Touched | Reply::Invalidated(_)
                | Reply::Flushed(_) => seen.with_write(),
                _ => seen.with_other(),
            }
        },
        Err(failed) => {
            let other = m.with_other();
            let sized = if failed.status == Status::TooLarge {
                ServerMetrics {
                    outcomes: crate::metrics::OutcomeMetrics {
                        store_too_large: other.outcomes.store_too_large.wrapping_add(1),
                        ..other.outcomes
                    },
                    ..other
                }
            } else {
                other
            };
            sized.with_error(class_of(failed.status))
        },
    }
}

/// Records an answered command: its latency, what it found, and how it ended.
///
/// The single point every command passes through, so the numbers cannot drift
/// apart from what was served.
pub fn count(
    metrics: &mut ServerMetrics,
    command: &Command,
    dialect: Dialect,
    outcome: &Result<Reply, Failed>,
    elapsed_us: u128,
)
    requires
        old(metrics).commands@.wf(),
    ensures
        final(metrics).commands@.wf(),
        final(metrics).commands@ == old(metrics).commands@.observed(
            CommandKind::kind_of(*command),
            dialect,
            elapsed_us,
        ),
        *final(metrics) == (ServerMetrics {
            commands: final(metrics).commands,
            ..counted(*old(metrics), *command, *outcome)
        }),
{
    metrics.commands.observe(CommandKind::of(command), dialect, elapsed_us);
    match outcome {
        Ok(reply) => {
            metrics.outcomes.observe(command, reply);
            match reply {
                Reply::Value(_) => metrics.read(1, 0),
                Reply::Values(values) => {
                    let found = domain::present(values);
                    metrics.read(found, values.len() as u64 - found);
                },
                Reply::Deadline(at) => if at.is_some() {
                    metrics.read(1, 0);
                } else {
                    metrics.read(0, 1);
                },
                Reply::Deadlines(at) => {
                    let live = domain::present(at);
                    metrics.read(live, at.len() as u64 - live);
                },
                Reply::NotFound => if is_read(command) {
                    metrics.read(0, 1);
                } else {
                    metrics.other();
                },
                Reply::Arithmetic(applied) => if applied.wrote {
                    metrics.write();
                } else {
                    metrics.other();
                },
                Reply::Applied(yes) => if *yes {
                    metrics.write();
                } else {
                    metrics.other();
                },
                Reply::Stored(_) | Reply::Swapped { .. } | Reply::StoredMany(_) | Reply::Length(_)
                | Reply::Deleted | Reply::DeletedMany(_) | Reply::Touched | Reply::Invalidated(_)
                | Reply::Flushed(_) => metrics.write(),
                _ => metrics.other(),
            }
        },
        Err(failed) => {
            metrics.other();
            if failed.status == Status::TooLarge {
                metrics.outcomes.store_too_large = metrics.outcomes.store_too_large.wrapping_add(1);
            }
            let class = match failed.status {
                Status::CapacityFull => ErrorClass::Capacity,
                Status::Overloaded => ErrorClass::Overloaded,
                Status::Internal => ErrorClass::Internal,
                _ => ErrorClass::Client,
            };
            metrics.error(class);
        },
    }
}

/// What became of a plan: it was answered at once, or the store was asked.
#[derive(Debug)]
pub enum Performed {
    Answered(Result<Reply, Failed>),
    Asked(Result<StoreAnswer, StoreError>),
}

/// Whether a command was settled as it deserves.
pub open spec fn concluded(
    command: Command,
    performed: Performed,
    max_sync: usize,
    out: Settled,
) -> bool {
    match performed {
        Performed::Answered(outcome) => out.outcome == outcome && out.effect is Nothing,
        Performed::Asked(answer) => settles(command, answer, max_sync, out),
    }
}

/// Executes a command whose plan was performed: settles what came back, and
/// records it.
pub fn execute(
    metrics: &mut ServerMetrics,
    command: &Command,
    dialect: Dialect,
    performed: Performed,
    max_sync: usize,
    elapsed_us: u128,
) -> (out: Settled)
    requires
        old(metrics).commands@.wf(),
    ensures
        concluded(*command, performed, max_sync, out),
        match (command, performed) {
            (
                Command::TagSync { full, entries },
                Performed::Asked(Ok(StoreAnswer::TagGenerations(known))),
            ) => {
                &&& out.effect is Merge
                &&& out.outcome matches Ok(Reply::TagSync(told)) && tags::informs(
                    *full,
                    tags::offers(entries@),
                    tags::views(known@),
                    max_sync as nat,
                    tags::views(told@),
                )
            },
            _ => true,
        },
        final(metrics).commands@.wf(),
        final(metrics).commands@ == old(metrics).commands@.observed(
            CommandKind::kind_of(*command),
            dialect,
            elapsed_us,
        ),
        *final(metrics) == (ServerMetrics {
            commands: final(metrics).commands,
            ..counted(*old(metrics), *command, out.outcome)
        }),
{
    let out = match performed {
        Performed::Answered(outcome) => Settled { outcome, effect: Effect::Nothing },
        Performed::Asked(answer) => settle(command, answer, max_sync),
    };
    count(metrics, command, dialect, &out.outcome, elapsed_us);
    out
}

/// Stores are counted as they applied: a guarded batch that applied adds as many
/// as it has writes, and one that was rejected adds none.
pub proof fn a_guarded_batch_counts_what_it_stored(
    m: ServerMetrics,
    command: Command,
    applied: bool,
    max_sync: usize,
    out: Settled,
)
    requires
        command is SetMany,
        command->SetMany_guard != BatchGuard::Always,
        settles(command, Ok(StoreAnswer::Applied(applied)), max_sync, out),
    ensures
        counted(m, command, out.outcome).outcomes == m.outcomes.stored(
            if applied {
                command->SetMany_sets@.len()
            } else {
                0
            },
        ),
{
}

/// Every command is counted exactly once, whatever it answered.
pub proof fn every_command_is_counted_once(
    m: ServerMetrics,
    command: Command,
    outcome: Result<Reply, Failed>,
)
    ensures
        counted(m, command, outcome).commands_total == m.commands_total.wrapping_add(1),
{
}

/// Records a read that was rendered straight out of the store: its latency under
/// `kind`, and whether it hit.
///
/// `kind` is which histogram to charge, and is not always that of a `GET`: a
/// plain memcached `get` naming one key is a `get_many` to an operator.
pub fn execute_get_into(
    metrics: &mut ServerMetrics,
    kind: CommandKind,
    dialect: Dialect,
    outcome: Result<bool, StoreError>,
    elapsed_us: u128,
) -> (hit: Result<bool, Failed>)
    requires
        old(metrics).commands@.wf(),
    ensures
        final(metrics).commands@.wf(),
        final(metrics).commands@ == old(metrics).commands@.observed(kind, dialect, elapsed_us),
        match outcome {
            Ok(yes) => {
                &&& hit == Ok::<bool, Failed>(yes)
                &&& *final(metrics) == (ServerMetrics {
                    commands: final(metrics).commands,
                    ..old(metrics).with_read(
                        if yes {
                            1
                        } else {
                            0
                        },
                        if yes {
                            0
                        } else {
                            1
                        },
                    )
                })
            },
            Err(e) => {
                &&& hit == Err::<bool, Failed>(classified(e))
                &&& *final(metrics) == (ServerMetrics {
                    commands: final(metrics).commands,
                    ..*old(metrics)
                })
            },
        },
{
    metrics.commands.observe(kind, dialect, elapsed_us);
    match outcome {
        Err(e) => Err(to_failed(e)),
        Ok(hit) => {
            if hit {
                metrics.read(1, 0);
            } else {
                metrics.read(0, 1);
            }
            Ok(hit)
        },
    }
}

/// A `GET` rendered straight out of the store is counted exactly as one that went
/// through a reply.
pub proof fn a_fused_get_counts_as_a_plain_one(m: ServerMetrics, key: Key, value: Value)
    ensures
        counted(m, Command::Get { key }, Ok(Reply::Value(value))) == m.with_read(1, 0),
        counted(m, Command::Get { key }, Ok(Reply::NotFound)) == m.with_read(0, 1),
{
}

/// Which capability each bit of the handshake claims.
#[derive(Debug, Clone, Copy)]
pub struct CapabilityBits {
    pub tags: u32,
    pub cluster: u32,
    pub listing: u32,
    pub flush: u32,
    pub memcached: u32,
    pub resp: u32,
    pub auth_required: u32,
}

/// `bits`, where `on` says so.
pub open spec fn bits_if(on: bool, bits: u32) -> u32 {
    if on {
        bits
    } else {
        0
    }
}

fn when(on: bool, bits: u32) -> (out: u32)
    ensures
        out == bits_if(on, bits),
{
    if on {
        bits
    } else {
        0
    }
}

/// Whether no two capabilities share a bit.
pub open spec fn distinct_bits(bits: CapabilityBits) -> bool {
    &&& bits.tags & (bits.cluster | bits.listing | bits.flush | bits.memcached | bits.resp
        | bits.auth_required) == 0
    &&& bits.cluster & (bits.listing | bits.flush | bits.memcached | bits.resp
        | bits.auth_required) == 0
    &&& bits.listing & (bits.flush | bits.memcached | bits.resp | bits.auth_required) == 0
    &&& bits.flush & (bits.memcached | bits.resp | bits.auth_required) == 0
    &&& bits.memcached & (bits.resp | bits.auth_required) == 0
    &&& bits.resp & bits.auth_required == 0
}

/// Whether a capability is claimed exactly where the node has it, as far as its bits
/// tell it from the others.
pub open spec fn claims(capabilities: u32, bit: u32, able: bool, bits: CapabilityBits) -> bool {
    &&& able ==> capabilities & bit == bit
    &&& !able && distinct_bits(bits) ==> capabilities & bit == 0
}

proof fn lemma_claimed(a: u32, b: u32, c: u32, d: u32, e: u32, f: u32, g: u32)
    by (bit_vector)
    ensures
        (a | b | c | d | e | f | g) & a == a,
        (a | b | c | d | e | f | g) & b == b,
        (a | b | c | d | e | f | g) & c == c,
        (a | b | c | d | e | f | g) & d == d,
        (a | b | c | d | e | f | g) & e == e,
        (a | b | c | d | e | f | g) & f == f,
        (a | b | c | d | e | f | g) & g == g,
{
}

proof fn lemma_unclaimed(
    a: u32,
    b: u32,
    c: u32,
    d: u32,
    e: u32,
    f: u32,
    g: u32,
    ub: bool,
    uc: bool,
    ud: bool,
    ue: bool,
    uf: bool,
    ug: bool,
)
    by (bit_vector)
    requires
        a & (b | c | d | e | f | g) == 0,
        b & (c | d | e | f | g) == 0,
        c & (d | e | f | g) == 0,
        d & (e | f | g) == 0,
        e & (f | g) == 0,
        f & g == 0,
    ensures
        ({
            let all = a | (if ub { b } else { 0u32 }) | (if uc { c } else { 0u32 }) | (if ud {
                d
            } else {
                0u32
            }) | (if ue { e } else { 0u32 }) | (if uf { f } else { 0u32 }) | (if ug {
                g
            } else {
                0u32
            });
            (ub || all & b == 0) && (uc || all & c == 0) && (ud || all & d == 0) && (ue || all & e
                == 0) && (uf || all & f == 0) && (ug || all & g == 0)
        }),
{
}

/// Builds the handshake response advertised to clients.
///
/// Every bit reports what this node does, never what the build knows how to do.
pub fn server_info(
    bits: &CapabilityBits,
    protocol_version: u16,
    max_key_len: u32,
    protocol: ProtocolConfig,
    shards: u16,
    max_value_len: usize,
    max_tags_per_record: usize,
    cluster: bool,
    auth_required: bool,
) -> (info: ServerInfo)
    ensures
        info == (ServerInfo {
            protocol_version,
            shards,
            max_key_len,
            max_value_len: max_value_len as u32,
            capabilities: bits.tags | bits_if(cluster, bits.cluster) | bits_if(
                protocol.listing_enabled,
                bits.listing,
            ) | bits_if(protocol.flush_enabled, bits.flush) | bits_if(
                protocol.memcached_enabled,
                bits.memcached,
            ) | bits_if(protocol.resp_enabled, bits.resp) | bits_if(
                auth_required,
                bits.auth_required,
            ),
            max_tags_per_record: max_tags_per_record as u16,
        }),
        claims(info.capabilities, bits.tags, true, *bits),
        claims(info.capabilities, bits.cluster, cluster, *bits),
        claims(info.capabilities, bits.listing, protocol.listing_enabled, *bits),
        claims(info.capabilities, bits.flush, protocol.flush_enabled, *bits),
        claims(info.capabilities, bits.memcached, protocol.memcached_enabled, *bits),
        claims(info.capabilities, bits.resp, protocol.resp_enabled, *bits),
        claims(info.capabilities, bits.auth_required, auth_required, *bits),
{
    let capabilities: u32 = bits.tags | when(cluster, bits.cluster) | when(
        protocol.listing_enabled,
        bits.listing,
    ) | when(protocol.flush_enabled, bits.flush) | when(
        protocol.memcached_enabled,
        bits.memcached,
    ) | when(protocol.resp_enabled, bits.resp) | when(auth_required, bits.auth_required);
    proof {
        lemma_claimed(
            bits.tags,
            bits_if(cluster, bits.cluster),
            bits_if(protocol.listing_enabled, bits.listing),
            bits_if(protocol.flush_enabled, bits.flush),
            bits_if(protocol.memcached_enabled, bits.memcached),
            bits_if(protocol.resp_enabled, bits.resp),
            bits_if(auth_required, bits.auth_required),
        );
        if distinct_bits(*bits) {
            lemma_unclaimed(
                bits.tags,
                bits.cluster,
                bits.listing,
                bits.flush,
                bits.memcached,
                bits.resp,
                bits.auth_required,
                cluster,
                protocol.listing_enabled,
                protocol.flush_enabled,
                protocol.memcached_enabled,
                protocol.resp_enabled,
                auth_required,
            );
        }
    }
    ServerInfo {
        protocol_version,
        shards,
        max_key_len,
        max_value_len: max_value_len as u32,
        capabilities,
        max_tags_per_record: max_tags_per_record as u16,
    }
}

/// The lifetime change that `translate` makes of another.
///
/// Only the forms that name an offset carry anything to translate.
pub open spec fn ttl_translated<F: Fn(u32) -> u32>(
    translate: F,
    before: TtlChange,
    after: TtlChange,
) -> bool {
    match (before, after) {
        (TtlChange::To(offset), TtlChange::To(ttl)) => call_ensures(translate, (offset,), ttl),
        (TtlChange::ToIfPersistent(offset), TtlChange::ToIfPersistent(ttl)) => call_ensures(
            translate,
            (offset,),
            ttl,
        ),
        (TtlChange::Keep, TtlChange::Keep) => true,
        _ => false,
    }
}

/// Translates the offset a lifetime change names.
pub fn offset_to_store_ttl<F: Fn(u32) -> u32>(translate: &F, ttl: TtlChange) -> (out: TtlChange)
    requires
        forall|offset: u32| call_requires(*translate, (offset,)),
    ensures
        ttl_translated(*translate, ttl, out),
{
    match ttl {
        TtlChange::To(offset) => TtlChange::To(translate(offset)),
        TtlChange::ToIfPersistent(offset) => TtlChange::ToIfPersistent(translate(offset)),
        TtlChange::Keep => TtlChange::Keep,
    }
}

/// Whether one write is another with its lifetime translated.
pub open spec fn set_translated<F: Fn(u32) -> u32>(
    translate: F,
    before: SetRequest,
    after: SetRequest,
) -> bool {
    &&& ttl_translated(translate, before.ttl, after.ttl)
    &&& after == SetRequest { ttl: after.ttl, ..before }
}

/// Whether one command is another with its lifetimes translated.
pub open spec fn command_translated<F: Fn(u32) -> u32>(
    translate: F,
    before: Command,
    after: Command,
) -> bool {
    match (before, after) {
        (Command::SetOne(a), Command::SetOne(b)) => set_translated(translate, a, b),
        (Command::SetMany { sets: a, guard: g }, Command::SetMany { sets: b, guard: h }) => {
            &&& g == h
            &&& a@.len() == b@.len()
            &&& forall|i: int|
                0 <= i < a@.len() ==> set_translated(translate, a@[i], #[trigger] b@[i])
        },
        (
            Command::Touch { key: a, ttl_secs: offset },
            Command::Touch { key: b, ttl_secs: ttl },
        ) => a == b && call_ensures(translate, (offset,), ttl),
        (Command::SetOne(_), _) | (Command::SetMany { .. }, _) | (Command::Touch { .. }, _) =>
            false,
        _ => after == before,
    }
}

/// Rewrites a native request's lifetimes from plain offsets into the overloaded
/// form the store reads.
///
/// `translate` is the clock's: an offset is an offset at every magnitude on this
/// protocol, while the store reads one past 30 days as an absolute stamp.
pub fn offsets_to_store_ttls<'a, F: Fn(u32) -> u32>(
    command: Command<'a>,
    translate: &F,
) -> (out: Command<'a>)
    requires
        forall|offset: u32| call_requires(*translate, (offset,)),
    ensures
        command_translated(*translate, command, out),
{
    match command {
        Command::SetOne(mut set) => {
            set.ttl = offset_to_store_ttl(translate, set.ttl);
            Command::SetOne(set)
        },
        Command::SetMany { sets, guard } => {
            let ghost before = sets@;
            let mut sets = sets;
            let mut i: usize = 0;
            while i < sets.len()
                invariant
                    forall|offset: u32| call_requires(*translate, (offset,)),
                    sets@.len() == before.len(),
                    i <= before.len(),
                    forall|j: int|
                        0 <= j < i ==> set_translated(*translate, before[j], #[trigger] sets@[j]),
                    forall|j: int| i <= j < before.len() ==> before[j] == #[trigger] sets@[j],
                decreases before.len() - i,
            {
                let ttl = offset_to_store_ttl(translate, sets[i].ttl);
                sets[i].ttl = ttl;
                i = i + 1;
            }
            Command::SetMany { sets, guard }
        },
        Command::Touch { key, ttl_secs } => Command::Touch { key, ttl_secs: translate(ttl_secs) },
        other => other,
    }
}

/// Every lifetime that a request names as an offset is translated, and nothing else of
/// it changes.
pub proof fn every_offset_is_translated<F: Fn(u32) -> u32>(
    translate: F,
    clock: spec_fn(u32) -> u32,
    before: Command,
    after: Command,
    i: int,
)
    requires
        forall|offset: u32, ttl: u32| #[trigger]
            call_ensures(translate, (offset,), ttl) ==> ttl == clock(offset),
        command_translated(translate, before, after),
    ensures
        match (before, after) {
            (Command::Touch { key, ttl_secs }, after) => after == (Command::Touch {
                key,
                ttl_secs: clock(ttl_secs),
            }),
            (Command::SetOne(a), Command::SetOne(b)) => b == (SetRequest {
                ttl: clocked(a.ttl, clock),
                ..a
            }),
            (Command::SetMany { sets: a, guard: g }, Command::SetMany { sets: b, guard: h }) => g
                == h && a@.len() == b@.len() && (0 <= i < a@.len() ==> b@[i] == (SetRequest {
                ttl: clocked(a@[i].ttl, clock),
                ..a@[i]
            })),
            (Command::SetOne(_), _) | (Command::SetMany { .. }, _) => false,
            _ => after == before,
        },
{
}

/// A lifetime change with the offset it names read off a clock.
pub open spec fn clocked(ttl: TtlChange, clock: spec_fn(u32) -> u32) -> TtlChange {
    match ttl {
        TtlChange::To(offset) => TtlChange::To(clock(offset)),
        TtlChange::ToIfPersistent(offset) => TtlChange::ToIfPersistent(clock(offset)),
        TtlChange::Keep => TtlChange::Keep,
    }
}

} // verus!
