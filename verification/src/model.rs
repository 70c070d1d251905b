//! The cache as its clients see it: the live records, what each call on the store
//! does to them, and what follows for the commands of every dialect.
//!
//! Nothing here runs. The laws hold what is planned, settled, translated and
//! rendered to what a client may rely on.
use crate::dispatch;
use crate::dispatch::{
    Effect, Failed, Gates, Performed, Plan, Settled, StoreAnswer, StoreCall,
};
use crate::domain;
use crate::domain::{
    Applied, Arithmetic, BatchGuard, Command, Deadline, Delta, ExpireGuard, Key, Missing, Number,
    OnBound, Reply, SetMode, SetRequest, Stored, TtlChange, Value, MAX_TTL_SECS,
    TTL_ALREADY_EXPIRED,
};
use crate::metrics::ServerMetrics;
use crate::text;
use vstd::prelude::*;
use vstd::utf8::*;

verus! {

/// A live record.
#[verifier::ext_equal]
pub struct Record {
    pub data: Seq<u8>,
    pub flags: u32,
    pub cas: u64,
    pub deadline: Deadline,
    pub tags: Set<Seq<u8>>,
}

/// The live records at a unix millisecond, and how often each known tag was
/// invalidated.
#[verifier::ext_equal]
pub struct Cache {
    pub records: Map<Seq<u8>, Record>,
    pub tags: Map<Seq<u8>, u64>,
    pub now: u64,
}

impl Cache {
    /// The record under a name.
    pub open spec fn find(self, name: Seq<u8>) -> Option<Record> {
        if self.records.contains_key(name) {
            Some(self.records[name])
        } else {
            None
        }
    }

    /// The cache with a record put under a name, or with nothing there.
    pub open spec fn with(self, name: Seq<u8>, record: Option<Record>) -> Cache {
        Cache {
            records: match record {
                Some(record) => self.records.insert(name, record),
                None => self.records.remove(name),
            },
            ..self
        }
    }

    /// Whether this is another cache but for what stands under a name.
    pub open spec fn differs_only_at(self, other: Cache, name: Seq<u8>) -> bool {
        &&& self.tags == other.tags
        &&& self.now == other.now
        &&& forall|n: Seq<u8>| n != name ==> #[trigger] self.find(n) == other.find(n)
    }
}

/// The deadline that a lifetime in seconds stands for, or nothing where it has
/// passed already.
pub open spec fn due(ttl_secs: u32, now: u64) -> Option<Deadline> {
    if ttl_secs == 0 {
        Some(Deadline::Never)
    } else if ttl_secs == TTL_ALREADY_EXPIRED {
        None
    } else if ttl_secs <= MAX_TTL_SECS {
        Some(Deadline::At((now + ttl_secs * 1_000) as u64))
    } else if ttl_secs * 1_000 > now {
        Some(Deadline::At((ttl_secs * 1_000) as u64))
    } else {
        None
    }
}

/// The deadline after a change, of a record that had another.
pub open spec fn rescheduled(deadline: Deadline, change: TtlChange, now: u64) -> Option<Deadline> {
    match change {
        TtlChange::To(ttl) => due(ttl, now),
        TtlChange::ToIfPersistent(ttl) => if deadline is Never {
            due(ttl, now)
        } else {
            Some(deadline)
        },
        TtlChange::Keep => Some(deadline),
    }
}

/// A record with its deadline changed, or nothing where that has passed.
pub open spec fn retimed(record: Record, change: TtlChange, now: u64) -> Option<Record> {
    match rescheduled(record.deadline, change, now) {
        Some(deadline) => Some(Record { deadline, ..record }),
        None => None,
    }
}

/// Whether a value is what a record reads as.
pub open spec fn shows(found: Option<Record>, value: Option<Value>) -> bool {
    match (found, value) {
        (Some(record), Some(value)) => {
            &&& value.data@ == record.data
            &&& value.mc_flags == record.flags
            &&& value.cas == record.cas
            &&& value.expires_at_ms == (match record.deadline {
                Deadline::Never => None::<u64>,
                Deadline::At(at) => Some(at),
            })
        },
        (None, None) => true,
        _ => false,
    }
}

/// Whether values are what the records under some keys read as, in order.
pub open spec fn shows_all(cache: Cache, keys: Seq<Key>, values: Seq<Option<Value>>) -> bool {
    &&& values.len() == keys.len()
    &&& forall|i: int|
        0 <= i < keys.len() ==> shows(cache.find(keys[i].bytes@), #[trigger] values[i])
}

/// When the record under a key expires.
pub open spec fn deadline_at(cache: Cache, key: Key) -> Option<Deadline> {
    match cache.find(key.bytes@) {
        Some(record) => Some(record.deadline),
        None => None,
    }
}

/// Whether some keys name a record.
pub open spec fn names(keys: Seq<Key>, name: Seq<u8>) -> bool {
    exists|i: int| 0 <= i < keys.len() && (#[trigger] keys[i]).bytes@ == name
}

/// Whether a cache is another with every named record touched.
pub open spec fn touched(before: Cache, keys: Seq<Key>, ttl_secs: u32, after: Cache) -> bool {
    &&& after.tags == before.tags
    &&& after.now == before.now
    &&& forall|name: Seq<u8>| #[trigger]
        after.find(name) == (match before.find(name) {
            Some(record) if names(keys, name) => retimed(
                record,
                TtlChange::To(ttl_secs),
                before.now,
            ),
            found => found,
        })
}

/// Whether a write applies to what is there.
pub open spec fn applies(mode: SetMode, found: Option<Record>) -> bool {
    match mode {
        SetMode::Always => true,
        SetMode::Add => found is None,
        SetMode::Replace | SetMode::Append | SetMode::Prepend => found is Some,
        SetMode::Cas(token) => found matches Some(record) && record.cas == token,
    }
}

/// Whether an outcome is the one a write has that meets what is there.
pub open spec fn outcome_fits(mode: SetMode, found: Option<Record>, outcome: Stored) -> bool {
    if applies(mode, found) {
        outcome is Stored
    } else {
        match mode {
            SetMode::Cas(_) => outcome == (if found is Some {
                Stored::Exists
            } else {
                Stored::NotFound
            }),
            _ => outcome == Stored::NotStored,
        }
    }
}

/// The tags of a write.
pub open spec fn tag_names(tags: Seq<&[u8]>) -> Set<Seq<u8>> {
    Set::new(|name: Seq<u8>| exists|i: int| 0 <= i < tags.len() && (#[trigger] tags[i])@ == name)
}

/// The record a write leaves, with its new token.
pub open spec fn written(set: SetRequest, found: Option<Record>, cas: u64, now: u64) -> Option<
    Record,
> {
    match (set.mode, found) {
        (SetMode::Append, Some(record)) => Some(
            Record { data: record.data + set.value@, cas, ..record },
        ),
        (SetMode::Prepend, Some(record)) => Some(
            Record { data: set.value@ + record.data, cas, ..record },
        ),
        _ => {
            let deadline = match found {
                Some(record) => record.deadline,
                None => Deadline::Never,
            };
            match rescheduled(deadline, set.ttl, now) {
                Some(deadline) => Some(
                    Record {
                        data: set.value@,
                        flags: set.mc_flags,
                        cas,
                        deadline,
                        tags: tag_names(set.tags@),
                    },
                ),
                None => None,
            }
        },
    }
}

/// Whether one write leads from a cache to another, with an outcome.
pub open spec fn stores(before: Cache, set: SetRequest, outcome: Stored, after: Cache) -> bool {
    let name = set.key.bytes@;
    let found = before.find(name);
    &&& outcome_fits(set.mode, found, outcome)
    &&& match outcome {
        Stored::Stored(cas) => after == before.with(name, written(set, found, cas, before.now)),
        _ => after == before,
    }
}

/// Whether a batch of writes leads from a cache to another, one after the other.
pub open spec fn stores_all(before: Cache, sets: Seq<SetRequest>, after: Cache) -> bool
    decreases sets.len(),
{
    if sets.len() == 0 {
        after == before
    } else {
        exists|between: Cache, outcome: Stored|
            stores_all(before, sets.drop_last(), between) && #[trigger] stores(
                between,
                sets.last(),
                outcome,
                after,
            )
    }
}

/// Whether a guard lets a batch through.
pub open spec fn guard_holds(guard: BatchGuard, cache: Cache, sets: Seq<SetRequest>) -> bool {
    match guard {
        BatchGuard::Always => true,
        BatchGuard::IfAllAbsent => forall|i: int|
            0 <= i < sets.len() ==> cache.find((#[trigger] sets[i]).key.bytes@) is None,
        BatchGuard::IfAllPresent => forall|i: int|
            0 <= i < sets.len() ==> cache.find((#[trigger] sets[i]).key.bytes@) is Some,
    }
}

/// Whether a deadline lies later than another. Never is later than any.
pub open spec fn later(a: Deadline, b: Deadline) -> bool {
    match (a, b) {
        (Deadline::At(a), Deadline::At(b)) => a > b,
        (Deadline::Never, Deadline::At(_)) => true,
        _ => false,
    }
}

/// Whether a guard lets a change of deadline through. One that has passed is
/// earlier than any.
pub open spec fn expires(guard: ExpireGuard, current: Deadline, asked: Option<Deadline>) -> bool {
    match guard {
        ExpireGuard::Always => true,
        ExpireGuard::IfPersistent => current is Never,
        ExpireGuard::IfVolatile => current !is Never,
        ExpireGuard::IfLater => asked matches Some(asked) && later(asked, current),
        ExpireGuard::IfEarlier => match asked {
            Some(asked) => later(current, asked),
            None => true,
        },
    }
}

/// A number in decimal.
pub open spec fn number_text(n: int) -> Seq<char> {
    if n < 0 {
        seq!['-'] + text::decimal((-n) as nat)
    } else {
        text::decimal(n as nat)
    }
}

/// The number that some data spells, if it spells one.
pub open spec fn number_of(data: Seq<u8>) -> Option<int> {
    if exists|n: int| data == #[trigger] encode_utf8(number_text(n)) {
        Some(choose|n: int| data == #[trigger] encode_utf8(number_text(n)))
    } else {
        None
    }
}

/// Whether the record under a key spells a number.
pub open spec fn spells(cache: Cache, key: Key, n: int) -> bool {
    cache.find(key.bytes@) matches Some(record) && number_of(record.data) == Some(n)
}

/// Whether a cache is another with a number under a name: in a record that is
/// otherwise as it was but for its token and its deadline.
pub open spec fn counts_to(
    before: Cache,
    name: Seq<u8>,
    record: Record,
    change: TtlChange,
    to: int,
    after: Cache,
) -> bool {
    &&& after.differs_only_at(before, name)
    &&& match (after.find(name), rescheduled(record.deadline, change, before.now)) {
        (Some(new), Some(deadline)) => {
            &&& number_of(new.data) == Some(to)
            &&& new == Record { data: new.data, cas: new.cas, deadline, ..record }
        },
        (None, None) => true,
        _ => false,
    }
}

/// What an integer operation makes of a number, or nothing where it fails.
pub open spec fn moved(n: int, delta: int, lower: int, upper: int, on_bound: OnBound) -> Option<
    int,
> {
    if lower <= n + delta <= upper {
        Some(n + delta)
    } else {
        match on_bound {
            OnBound::Fail => None,
            OnBound::Skip => Some(n),
            OnBound::Clamp => Some(
                if n + delta < lower {
                    lower
                } else {
                    upper
                },
            ),
        }
    }
}

/// What a memcached counter becomes: it wraps upwards, and stops at zero.
pub open spec fn ticked(n: int, delta: u64, decrement: bool) -> int {
    if decrement {
        if n < delta {
            0
        } else {
            n - delta
        }
    } else {
        (n + delta) % 0x1_0000_0000_0000_0000
    }
}

/// The record a counter starts from where there is none.
pub open spec fn fresh() -> Record {
    Record {
        data: Seq::empty(),
        flags: 0,
        cas: 0,
        deadline: Deadline::Never,
        tags: Set::empty(),
    }
}

/// Whether an arithmetic operation leads from a cache to another. A counter that
/// is not there starts at zero, where the operation says so. What a float becomes
/// is left open.
pub open spec fn computes(
    before: Cache,
    op: Arithmetic,
    answer: Option<Applied>,
    after: Cache,
) -> bool {
    let name = op.key.bytes@;
    let found = before.find(name);
    if found is None && op.missing == Missing::Miss {
        answer is None && after == before
    } else {
        let record = match found {
            Some(record) => record,
            None => fresh(),
        };
        let number = match found {
            Some(record) => number_of(record.data),
            None => Some(0int),
        };
        &&& answer matches Some(applied)
        &&& match op.delta {
            Delta::Int { delta, lower, upper } => {
                &&& number matches Some(n)
                &&& i64::MIN <= n <= i64::MAX
                &&& moved(n, delta as int, lower as int, upper as int, op.on_bound) matches Some(to)
                &&& i64::MIN <= to <= i64::MAX
                &&& i64::MIN <= to - n <= i64::MAX
                &&& applied.value == Number::Int(to as i64)
                &&& applied.applied == Number::Int((to - n) as i64)
                &&& applied.wrote == (lower <= n + delta <= upper || op.on_bound != OnBound::Skip)
                &&& if applied.wrote {
                    counts_to(before, name, record, op.ttl, to, after)
                } else {
                    after == before
                }
            },
            Delta::Counter { delta, decrement } => {
                &&& number matches Some(n)
                &&& 0 <= n <= u64::MAX
                &&& applied.value == Number::Counter(ticked(n, delta, decrement) as u64)
                &&& applied.wrote
                &&& counts_to(before, name, record, op.ttl, ticked(n, delta, decrement), after)
            },
            Delta::Float { .. } => {
                &&& applied.value is Float
                &&& applied.applied is Float
                &&& after.differs_only_at(before, name)
                &&& !applied.wrote ==> after == before
            },
        }
    }
}

/// Whether a call may return an answer, and what it leaves of the cache.
pub open spec fn answers(before: Cache, call: StoreCall, answer: StoreAnswer, after: Cache) -> bool {
    match call {
        StoreCall::Get(key) => {
            &&& after == before
            &&& answer matches StoreAnswer::Value(value) && shows(
                before.find(key.bytes@),
                value,
            )
        },
        StoreCall::GetMany(keys) => {
            &&& after == before
            &&& answer matches StoreAnswer::Values(values) && shows_all(before, keys@, values@)
        },
        StoreCall::GetAndTouch { keys, ttl_secs } => {
            &&& answer matches StoreAnswer::Values(values) && shows_all(before, keys@, values@)
            &&& touched(before, keys@, ttl_secs, after)
        },
        StoreCall::Store(set) => {
            &&& answer matches StoreAnswer::Written { outcome, previous }
            &&& stores(before, *set, outcome, after)
            &&& set.return_previous ==> shows(before.find(set.key.bytes@), previous)
        },
        StoreCall::Deadline(key) => {
            &&& after == before
            &&& answer == StoreAnswer::Deadline(deadline_at(before, key))
        },
        StoreCall::Deadlines(keys) => {
            &&& after == before
            &&& answer matches StoreAnswer::Deadlines(found) && found@ == Seq::new(
                keys@.len(),
                |i: int| deadline_at(before, keys@[i]),
            )
        },
        StoreCall::Expire { key, ttl, guard } => {
            let name = key.bytes@;
            match before.find(name) {
                Some(record) if expires(
                    guard,
                    record.deadline,
                    rescheduled(record.deadline, ttl, before.now),
                ) => {
                    &&& answer == StoreAnswer::Applied(true)
                    &&& after == before.with(name, retimed(record, ttl, before.now))
                },
                _ => answer == StoreAnswer::Applied(false) && after == before,
            }
        },
        StoreCall::Append { key, suffix } => {
            let name = key.bytes@;
            let data = match before.find(name) {
                Some(record) => record.data + suffix@,
                None => suffix@,
            };
            &&& data.len() <= u64::MAX
            &&& answer == StoreAnswer::Length(data.len() as u64)
            &&& after.differs_only_at(before, name)
            &&& after.find(name) matches Some(record) && record.data == data
                && record.deadline == (match before.find(name) {
                Some(old) => old.deadline,
                None => Deadline::Never,
            })
        },
        StoreCall::Arithmetic(op) => answer matches StoreAnswer::Arithmetic(applied) && computes(
            before,
            *op,
            applied,
            after,
        ),
        StoreCall::SetMany(sets) => {
            &&& answer matches StoreAnswer::StoredMany(cas) && cas@.len() == sets@.len()
            &&& stores_all(before, sets@, after)
        },
        StoreCall::SetManyIf { sets, guard } => if guard_holds(guard, before, sets@) {
            answer == StoreAnswer::Applied(true) && stores_all(before, sets@, after)
        } else {
            answer == StoreAnswer::Applied(false) && after == before
        },
        StoreCall::Delete(key) => {
            &&& answer == StoreAnswer::Found(before.find(key.bytes@) is Some)
            &&& after == before.with(key.bytes@, None)
        },
        StoreCall::DeleteMany(keys) => {
            &&& answer matches StoreAnswer::DeletedMany(hits) && hits@.len() == keys@.len()
                && forall|i: int|
                0 <= i < keys@.len() ==> (#[trigger] hits@[i] <==> before.find(keys@[i].bytes@)
                    is Some && !names(keys@.take(i), keys@[i].bytes@))
            &&& after == Cache {
                records: before.records.remove_keys(
                    Set::new(|name: Seq<u8>| names(keys@, name)),
                ),
                ..before
            }
        },
        StoreCall::Touch { key, ttl_secs } => match before.find(key.bytes@) {
            Some(record) => {
                &&& answer == StoreAnswer::Found(true)
                &&& after == before.with(
                    key.bytes@,
                    retimed(record, TtlChange::To(ttl_secs), before.now),
                )
            },
            None => answer == StoreAnswer::Found(false) && after == before,
        },
        StoreCall::DeleteByTag(tag) => if before.tags.contains_key(tag@) {
            &&& before.tags[tag@] < u64::MAX
            &&& answer == StoreAnswer::Generation(Some((before.tags[tag@] + 1) as u64))
            &&& after == Cache {
                records: before.records.remove_keys(
                    Set::new(
                        |name: Seq<u8>|
                            before.find(name) matches Some(record) && record.tags.contains(tag@),
                    ),
                ),
                tags: before.tags.insert(tag@, (before.tags[tag@] + 1) as u64),
                ..before
            }
        } else {
            answer == StoreAnswer::Generation(None) && after == before
        },
        StoreCall::Flush => {
            &&& answer == StoreAnswer::Flushed(before.records.len() as u64)
            &&& after == Cache { records: Map::empty(), ..before }
        },
        StoreCall::TagGenerations => answer is TagGenerations && after == before,
        StoreCall::ClusterView => answer is ClusterView && after == before,
        StoreCall::Counters => answer is Counters && after == before,
        StoreCall::Version => answer is Version && after == before,
        StoreCall::ListKeys { .. } | StoreCall::ListTags(_) => answer is Listing && after
            == before,
    }
}

/// Whether a command that was planned, performed and settled leads from a cache
/// to another.
pub open spec fn served<'a>(
    before: Cache,
    command: &Command<'a>,
    gates: Gates,
    answer: StoreAnswer,
    max_sync: usize,
    settled: Settled,
    after: Cache,
) -> bool {
    match dispatch::planned(command, gates) {
        Plan::Answer(outcome) => {
            &&& after == before
            &&& dispatch::concluded(*command, Performed::Answered(outcome), max_sync, settled)
        },
        Plan::Ask(call) => {
            &&& answers(before, call, answer, after)
            &&& dispatch::concluded(*command, Performed::Asked(Ok(answer)), max_sync, settled)
        },
    }
}

/// What may be refused here whatever the store holds: a handshake of another
/// version, and what was not deliberately enabled.
pub open spec fn may_be_refused(command: Command, gates: Gates) -> bool {
    match command {
        Command::Hello { protocol_version } => protocol_version != gates.protocol_version,
        Command::Flush => !gates.protocol.flush_enabled,
        Command::ListKeys(_) | Command::ListTags(_) => !gates.protocol.listing_enabled,
        _ => false,
    }
}

/// Whatever the store may answer to what is asked of it makes a reply: a command
/// fails without a failure of the store only where it is refused here, and then
/// nothing was done.
pub proof fn every_answer_makes_a_reply(
    before: Cache,
    command: &Command,
    gates: Gates,
    answer: StoreAnswer,
    max_sync: usize,
    settled: Settled,
    after: Cache,
)
    requires
        served(before, command, gates, answer, max_sync, settled, after),
    ensures
        settled.outcome is Err <==> may_be_refused(*command, gates),
        settled.outcome is Err ==> after == before && settled.effect is Nothing,
{
}

/// A command that claims to read leaves everything as it was.
pub proof fn a_read_changes_nothing(
    before: Cache,
    command: &Command,
    gates: Gates,
    answer: StoreAnswer,
    max_sync: usize,
    settled: Settled,
    after: Cache,
)
    requires
        served(before, command, gates, answer, max_sync, settled, after),
        command.reads_only(),
    ensures
        after == before,
        settled.effect is Nothing,
{
}

/// A read answers the record under its key, and that it misses one.
pub proof fn a_get_answers_the_record(
    before: Cache,
    key: Key,
    command: &Command,
    gates: Gates,
    answer: StoreAnswer,
    max_sync: usize,
    settled: Settled,
    after: Cache,
)
    requires
        *command == (Command::Get { key }),
        served(before, command, gates, answer, max_sync, settled, after),
    ensures
        after == before,
        match settled.outcome {
            Ok(Reply::Value(value)) => shows(before.find(key.bytes@), Some(value)),
            Ok(Reply::NotFound) => before.find(key.bytes@) is None,
            _ => false,
        },
{
}

/// A read of many keys answers each as a read of that key would, in order.
pub proof fn a_get_of_many_answers_each_record(
    before: Cache,
    command: &Command,
    gates: Gates,
    answer: StoreAnswer,
    max_sync: usize,
    settled: Settled,
    after: Cache,
)
    requires
        command is GetMany,
        served(before, command, gates, answer, max_sync, settled, after),
    ensures
        after == before,
        settled.outcome matches Ok(Reply::Values(values)) && shows_all(
            before,
            command->GetMany_0@,
            values@,
        ),
{
}

/// A get-and-touch answers every named record, and leaves each of them as it was
/// but with the lifetime that was asked for. Nothing else changes.
pub proof fn a_get_and_touch_answers_and_touches(
    before: Cache,
    command: &Command,
    gates: Gates,
    answer: StoreAnswer,
    max_sync: usize,
    settled: Settled,
    after: Cache,
    name: Seq<u8>,
)
    requires
        command is GetAndTouch,
        served(before, command, gates, answer, max_sync, settled, after),
    ensures
        settled.outcome matches Ok(Reply::Values(values)) && shows_all(
            before,
            command->GetAndTouch_keys@,
            values@,
        ),
        after.tags == before.tags,
        match before.find(name) {
            Some(record) if names(command->GetAndTouch_keys@, name) => match due(
                command->GetAndTouch_ttl_secs,
                before.now,
            ) {
                Some(deadline) => after.find(name) == Some(Record { deadline, ..record }),
                None => after.find(name) is None,
            },
            found => after.find(name) == found,
        },
{
}

/// A single write meets its condition or changes nothing, says which, and tells
/// what it displaced exactly where it was asked to.
pub proof fn a_write_meets_its_condition(
    before: Cache,
    command: &Command,
    gates: Gates,
    answer: StoreAnswer,
    max_sync: usize,
    settled: Settled,
    after: Cache,
)
    requires
        command is SetOne,
        served(before, command, gates, answer, max_sync, settled, after),
    ensures
        ({
            let set = command->SetOne_0;
            let found = before.find(set.key.bytes@);
            &&& settled.effect is Nothing
            &&& match settled.outcome {
                Ok(Reply::Stored(outcome)) => {
                    &&& !set.return_previous
                    &&& outcome is Stored <==> applies(set.mode, found)
                    &&& outcome_fits(set.mode, found, outcome)
                },
                Ok(Reply::Swapped { outcome, previous }) => {
                    &&& set.return_previous
                    &&& outcome_fits(set.mode, found, outcome)
                    &&& shows(found, previous)
                },
                _ => false,
            }
            &&& !applies(set.mode, found) ==> after == before
            &&& after.differs_only_at(before, set.key.bytes@)
            &&& applies(set.mode, found) ==> match (set.mode, found, after.find(set.key.bytes@)) {
                (SetMode::Append, Some(old), new) => new matches Some(new) && new.data == old.data
                    + set.value@ && new.deadline == old.deadline,
                (SetMode::Prepend, Some(old), new) => new matches Some(new) && new.data
                    == set.value@ + old.data && new.deadline == old.deadline,
                (_, _, Some(new)) => {
                    &&& new.data == set.value@
                    &&& new.flags == set.mc_flags
                    &&& new.tags == tag_names(set.tags@)
                    &&& Some(new.deadline) == rescheduled(
                        match found {
                            Some(old) => old.deadline,
                            None => Deadline::Never,
                        },
                        set.ttl,
                        before.now,
                    )
                },
                (_, _, None) => set.ttl !is Keep && set.ttl != TtlChange::To(0),
            }
        }),
{
}

/// What is written is read back, until something else happens to it.
pub proof fn a_write_is_read_back(
    before: Cache,
    write: &Command,
    read: &Command,
    gates: Gates,
    wrote: StoreAnswer,
    answer: StoreAnswer,
    max_sync: usize,
    stored: Settled,
    between: Cache,
    settled: Settled,
    after: Cache,
)
    requires
        write is SetOne,
        write->SetOne_0.mode == SetMode::Always,
        write->SetOne_0.ttl == TtlChange::To(0),
        *read == (Command::Get { key: write->SetOne_0.key }),
        served(before, write, gates, wrote, max_sync, stored, between),
        served(between, read, gates, answer, max_sync, settled, after),
    ensures
        settled.outcome matches Ok(Reply::Value(value)) && value.data@ == write->SetOne_0.value@
            && value.mc_flags == write->SetOne_0.mc_flags && value.expires_at_ms is None,
{
}

/// A deleted record is gone, and only it; the answer says whether it was there.
pub proof fn a_delete_removes_the_record(
    before: Cache,
    key: Key,
    command: &Command,
    gates: Gates,
    answer: StoreAnswer,
    max_sync: usize,
    settled: Settled,
    after: Cache,
)
    requires
        *command == (Command::Delete { key }),
        served(before, command, gates, answer, max_sync, settled, after),
    ensures
        after.find(key.bytes@) is None,
        after.differs_only_at(before, key.bytes@),
        match settled.outcome {
            Ok(Reply::Deleted) => before.find(key.bytes@) is Some,
            Ok(Reply::NotFound) => before.find(key.bytes@) is None,
            _ => false,
        },
{
}

/// A delete of many removes every named record and no other, and answers for each
/// key whether it was the one that found a record.
pub proof fn a_delete_of_many_removes_each_record(
    before: Cache,
    command: &Command,
    gates: Gates,
    answer: StoreAnswer,
    max_sync: usize,
    settled: Settled,
    after: Cache,
    name: Seq<u8>,
)
    requires
        command is DeleteMany,
        served(before, command, gates, answer, max_sync, settled, after),
    ensures
        after.find(name) == (if names(command->DeleteMany_0@, name) {
            None
        } else {
            before.find(name)
        }),
        settled.outcome matches Ok(Reply::DeletedMany(hits)) && hits@.len()
            == command->DeleteMany_0@.len() && forall|i: int|
            0 <= i < hits@.len() && #[trigger] hits@[i] ==> before.find(
                command->DeleteMany_0@[i].bytes@,
            ) is Some,
{
}

/// A touch gives a record the lifetime that was asked for and leaves its data;
/// the answer says whether there was one.
pub proof fn a_touch_moves_the_deadline(
    before: Cache,
    key: Key,
    ttl_secs: u32,
    command: &Command,
    gates: Gates,
    answer: StoreAnswer,
    max_sync: usize,
    settled: Settled,
    after: Cache,
)
    requires
        *command == (Command::Touch { key, ttl_secs }),
        served(before, command, gates, answer, max_sync, settled, after),
    ensures
        after.differs_only_at(before, key.bytes@),
        match (before.find(key.bytes@), settled.outcome) {
            (Some(record), Ok(Reply::Touched)) => match due(ttl_secs, before.now) {
                Some(deadline) => after.find(key.bytes@) == Some(Record { deadline, ..record }),
                None => after.find(key.bytes@) is None,
            },
            (None, Ok(Reply::NotFound)) => after == before,
            _ => false,
        },
{
}

/// A guarded change of deadline applies exactly where there is a record and its
/// guard holds, and says so.
pub proof fn an_expire_meets_its_guard(
    before: Cache,
    command: &Command,
    gates: Gates,
    answer: StoreAnswer,
    max_sync: usize,
    settled: Settled,
    after: Cache,
)
    requires
        command is Expire,
        served(before, command, gates, answer, max_sync, settled, after),
    ensures
        ({
            let name = command->Expire_key.bytes@;
            let ttl = command->Expire_ttl;
            &&& after.differs_only_at(before, name)
            &&& settled.outcome matches Ok(Reply::Applied(yes)) && match before.find(name) {
                Some(record) => {
                    let asked = rescheduled(record.deadline, ttl, before.now);
                    &&& yes == expires(command->Expire_guard, record.deadline, asked)
                    &&& after.find(name) == (if yes {
                        retimed(record, ttl, before.now)
                    } else {
                        Some(record)
                    })
                },
                None => !yes && after == before,
            }
        }),
{
}

/// A deadline query answers when a record expires, and that there is none.
pub proof fn a_deadline_query_answers_the_deadline(
    before: Cache,
    command: &Command,
    gates: Gates,
    answer: StoreAnswer,
    max_sync: usize,
    settled: Settled,
    after: Cache,
)
    requires
        command is Deadline || command is Deadlines,
        served(before, command, gates, answer, max_sync, settled, after),
    ensures
        after == before,
        command is Deadline ==> settled.outcome == Ok::<Reply, Failed>(
            Reply::Deadline(deadline_at(before, command->Deadline_key)),
        ),
        command is Deadlines ==> (settled.outcome matches Ok(Reply::Deadlines(found))
            && found@.len() == command->Deadlines_0@.len() && forall|i: int|
            0 <= i < found@.len() ==> #[trigger] found@[i] == deadline_at(
                before,
                command->Deadlines_0@[i],
            )),
{
}

/// An append makes a record longer by what was appended, or starts one, and
/// answers how long it is.
pub proof fn an_append_makes_it_longer(
    before: Cache,
    command: &Command,
    gates: Gates,
    answer: StoreAnswer,
    max_sync: usize,
    settled: Settled,
    after: Cache,
)
    requires
        command is Append,
        served(before, command, gates, answer, max_sync, settled, after),
    ensures
        ({
            let name = command->Append_key.bytes@;
            &&& after.differs_only_at(before, name)
            &&& after.find(name) matches Some(record) && record.data == (match before.find(name) {
                Some(old) => old.data + command->Append_suffix@,
                None => command->Append_suffix@,
            }) && settled.outcome == Ok::<Reply, Failed>(Reply::Length(record.data.len() as u64))
        }),
{
}

/// An operation on a counter answers what became of it. It answers a miss exactly
/// where there is no counter and none is to be made.
pub proof fn arithmetic_answers_the_counter(
    before: Cache,
    command: &Command,
    gates: Gates,
    answer: StoreAnswer,
    max_sync: usize,
    settled: Settled,
    after: Cache,
)
    requires
        command is Arithmetic,
        served(before, command, gates, answer, max_sync, settled, after),
    ensures
        ({
            let op = command->Arithmetic_0;
            match settled.outcome {
                Ok(Reply::NotFound) => {
                    &&& op.missing == Missing::Miss
                    &&& before.find(op.key.bytes@) is None
                    &&& after == before
                },
                Ok(Reply::Arithmetic(applied)) => {
                    &&& after.differs_only_at(before, op.key.bytes@)
                    &&& match (op.delta, applied.value) {
                        (Delta::Int { .. }, Number::Int(n)) => applied.wrote && op.ttl is Keep
                            ==> spells(after, op.key, n as int),
                        (Delta::Counter { .. }, Number::Counter(n)) => op.ttl is Keep ==> spells(
                            after,
                            op.key,
                            n as int,
                        ),
                        (Delta::Float { .. }, Number::Float(_)) => true,
                        _ => false,
                    }
                },
                _ => false,
            }
        }),
{
}

/// A batch applies as a whole where its guard holds, and then says so; where it
/// does not, nothing changes.
pub proof fn a_batch_applies_as_a_whole_or_not_at_all(
    before: Cache,
    command: &Command,
    gates: Gates,
    answer: StoreAnswer,
    max_sync: usize,
    settled: Settled,
    after: Cache,
)
    requires
        command is SetMany,
        served(before, command, gates, answer, max_sync, settled, after),
    ensures
        ({
            let sets = command->SetMany_sets@;
            if guard_holds(command->SetMany_guard, before, sets) {
                settled.outcome is Ok && settled.outcome->Ok_0 is StoredMany && stores_all(
                    before,
                    sets,
                    after,
                )
            } else {
                settled.outcome == Ok::<Reply, Failed>(Reply::Stored(Stored::NotStored)) && after
                    == before
            }
        }),
{
}

/// Invalidating a tag removes every record that carries it and no other. Where
/// the tag was known its generation rises, and that generation is what the peers
/// are told; where it was not, nothing is said.
pub proof fn an_invalidation_removes_what_carries_the_tag(
    before: Cache,
    command: &Command,
    gates: Gates,
    answer: StoreAnswer,
    max_sync: usize,
    settled: Settled,
    after: Cache,
    name: Seq<u8>,
)
    requires
        command is DeleteByTag,
        served(before, command, gates, answer, max_sync, settled, after),
    ensures
        ({
            let tag = command->DeleteByTag_tag@;
            if before.tags.contains_key(tag) {
                &&& settled.outcome == Ok::<Reply, Failed>(Reply::Invalidated(true))
                &&& settled.effect matches Effect::Propagate { generation } && generation
                    > before.tags[tag] && after.tags.contains_key(tag) && after.tags[tag]
                    == generation
                &&& after.find(name) == (match before.find(name) {
                    Some(record) if record.tags.contains(tag) => None,
                    found => found,
                })
            } else {
                &&& settled.outcome == Ok::<Reply, Failed>(Reply::Invalidated(false))
                &&& settled.effect is Nothing
                &&& after == before
            }
        }),
{
}

/// Flushing empties the cache, where it is enabled, and answers how much there
/// was; where it is not, nothing is lost.
pub proof fn a_flush_empties_the_cache_where_it_is_enabled(
    before: Cache,
    command: &Command,
    gates: Gates,
    answer: StoreAnswer,
    max_sync: usize,
    settled: Settled,
    after: Cache,
    name: Seq<u8>,
)
    requires
        command is Flush,
        served(before, command, gates, answer, max_sync, settled, after),
    ensures
        if gates.protocol.flush_enabled {
            &&& after.find(name) is None
            &&& settled.outcome == Ok::<Reply, Failed>(
                Reply::Flushed(before.records.len() as u64),
            )
        } else {
            after == before && settled.outcome is Err
        },
{
}

/// The places at which keys name a record.
pub open spec fn found_at(cache: Cache, keys: Seq<Key>) -> Set<int> {
    Set::new(|i: int| 0 <= i < keys.len() && cache.find(keys[i].bytes@) is Some)
}

/// The keys that a read looks up.
pub open spec fn keys_read(command: Command) -> Option<Seq<Key>> {
    match command {
        Command::Get { key } => Some(seq![key]),
        Command::Deadline { key } => Some(seq![key]),
        Command::GetMany(keys) => Some(keys@),
        Command::Deadlines(keys) => Some(keys@),
        Command::GetAndTouch { keys, .. } => Some(keys@),
        _ => None,
    }
}

/// A read is counted as one read, and key by key as what it found: a hit for every key
/// that is there, and a miss for every other.
pub proof fn a_read_is_counted_key_by_key(
    before: Cache,
    command: &Command,
    gates: Gates,
    answer: StoreAnswer,
    max_sync: usize,
    settled: Settled,
    after: Cache,
    m: ServerMetrics,
)
    requires
        served(before, command, gates, answer, max_sync, settled, after),
        keys_read(*command) is Some,
    ensures
        ({
            let keys = keys_read(*command)->0;
            let c = dispatch::counted(m, *command, settled.outcome);
            let hits = found_at(before, keys).len();
            &&& c.reads == m.reads.wrapping_add(1)
            &&& c.writes == m.writes
            &&& c.hits == m.hits.wrapping_add(hits as u64)
            &&& c.misses == m.misses.wrapping_add((keys.len() - hits) as u64)
            &&& c.outcomes == m.outcomes
        }),
{
    let keys = keys_read(*command)->0;
    let found = found_at(before, keys);
    match *command {
        Command::Get { key } => lemma_found_one(before, key),
        Command::Deadline { key } => lemma_found_one(before, key),
        Command::Deadlines(_) => {
            let list = answer->Deadlines_0@;
            domain::present_entries_are_counted_by_place(list);
            assert forall|i: int| domain::places(list).contains(i) <==> found.contains(i) by {
                if 0 <= i < keys.len() {
                    assert(list[i] == deadline_at(before, keys[i]));
                }
            }
            assert(domain::places(list) =~= found);
        },
        _ => {
            let list = answer->Values_0@;
            domain::present_entries_are_counted_by_place(list);
            assert forall|i: int| domain::places(list).contains(i) <==> found.contains(i) by {
                if 0 <= i < keys.len() {
                    assert(shows(before.find(keys[i].bytes@), list[i]));
                }
            }
            assert(domain::places(list) =~= found);
        },
    }
}

proof fn lemma_found_one(cache: Cache, key: Key)
    ensures
        found_at(cache, seq![key]).len() == (if cache.find(key.bytes@) is Some {
            1nat
        } else {
            0
        }),
{
    let found = found_at(cache, seq![key]);
    if cache.find(key.bytes@) is Some {
        assert(found =~= set![0int]);
    } else {
        assert(found =~= Set::empty());
    }
}

/// A command that changed anything is counted as a write, and one that only reports
/// neither as a read nor as a write. What is refused is counted as one error, of the
/// client's making.
pub proof fn a_change_is_counted_as_a_write(
    before: Cache,
    command: &Command,
    gates: Gates,
    answer: StoreAnswer,
    max_sync: usize,
    settled: Settled,
    after: Cache,
    m: ServerMetrics,
)
    requires
        served(before, command, gates, answer, max_sync, settled, after),
        keys_read(*command) is None,
    ensures
        ({
            let c = dispatch::counted(m, *command, settled.outcome);
            &&& c.commands_total == m.commands_total.wrapping_add(1)
            &&& c.reads == m.reads && c.hits == m.hits && c.misses == m.misses
            &&& after != before ==> c.writes == m.writes.wrapping_add(1)
            &&& command.reads_only() ==> c.writes == m.writes && c.outcomes == m.outcomes
            &&& settled.outcome is Err ==> c.errors_client == m.errors_client.wrapping_add(1)
                && c.errors_internal == m.errors_internal && c.errors_capacity
                == m.errors_capacity && c.errors_overloaded == m.errors_overloaded && c.writes
                == m.writes
            &&& settled.outcome is Ok ==> c.errors_client == m.errors_client && c.errors_internal
                == m.errors_internal && c.errors_capacity == m.errors_capacity
                && c.errors_overloaded == m.errors_overloaded
        }),
{
    if let Command::Delete { key } = *command {
        if before.find(key.bytes@) is None {
            assert(after.records =~= before.records);
        }
    }
}

/// What a delete, a touch and a compare-and-set met is counted under its own name.
pub proof fn what_a_command_met_is_counted(
    before: Cache,
    command: &Command,
    gates: Gates,
    answer: StoreAnswer,
    max_sync: usize,
    settled: Settled,
    after: Cache,
    m: ServerMetrics,
)
    requires
        served(before, command, gates, answer, max_sync, settled, after),
    ensures
        ({
            let c = dispatch::counted(m, *command, settled.outcome).outcomes;
            match *command {
                Command::Delete { key } => {
                    let there = before.find(key.bytes@) is Some;
                    &&& c.delete_hits == m.outcomes.delete_hits.wrapping_add(one_if(there))
                    &&& c.delete_misses == m.outcomes.delete_misses.wrapping_add(one_if(!there))
                },
                Command::Touch { key, .. } => {
                    let there = before.find(key.bytes@) is Some;
                    &&& c.touch_hits == m.outcomes.touch_hits.wrapping_add(one_if(there))
                    &&& c.touch_misses == m.outcomes.touch_misses.wrapping_add(one_if(!there))
                },
                Command::Arithmetic(op) => {
                    let missed = before.find(op.key.bytes@) is None && op.missing == Missing::Miss;
                    let down = match op.delta {
                        Delta::Counter { decrement, .. } => decrement,
                        Delta::Int { delta, .. } => delta < 0,
                        Delta::Float { .. } => crate::metrics::moves_down(op.delta),
                    };
                    &&& c.incr_hits == m.outcomes.incr_hits.wrapping_add(one_if(!missed && !down))
                    &&& c.incr_misses == m.outcomes.incr_misses.wrapping_add(
                        one_if(missed && !down),
                    )
                    &&& c.decr_hits == m.outcomes.decr_hits.wrapping_add(one_if(!missed && down))
                    &&& c.decr_misses == m.outcomes.decr_misses.wrapping_add(one_if(missed && down))
                },
                Command::SetOne(set) => {
                    let found = before.find(set.key.bytes@);
                    let wrote = applies(set.mode, found);
                    let swaps = set.mode is Cas && !set.return_previous;
                    &&& c.total_items == m.outcomes.total_items.wrapping_add(one_if(wrote))
                    &&& c.cas_hits == m.outcomes.cas_hits.wrapping_add(one_if(swaps && wrote))
                    &&& c.cas_badval == m.outcomes.cas_badval.wrapping_add(
                        one_if(swaps && !wrote && found is Some),
                    )
                    &&& c.cas_misses == m.outcomes.cas_misses.wrapping_add(
                        one_if(swaps && found is None),
                    )
                },
                Command::SetMany { sets, guard } => c.total_items
                    == m.outcomes.total_items.wrapping_add(
                    if guard_holds(guard, before, sets@) {
                        sets@.len() as u64
                    } else {
                        0
                    },
                ),
                _ => true,
            }
        }),
{
}

/// One, where something holds.
pub open spec fn one_if(holds: bool) -> u64 {
    if holds {
        1
    } else {
        0
    }
}

/// What the server reports of itself is what it was asked for: the counters, the
/// version, the view of the cluster and the page of a listing reach the client as they
/// were answered, and a handshake of this server's version tells what the server is.
pub proof fn what_is_reported_is_passed_on(
    before: Cache,
    command: &Command,
    gates: Gates,
    answer: StoreAnswer,
    max_sync: usize,
    settled: Settled,
    after: Cache,
)
    requires
        served(before, command, gates, answer, max_sync, settled, after),
    ensures
        after.records == before.records || !(command is Stats || command is Version || command
            is Cluster || command is ListKeys || command is ListTags || command is Hello || command
            is Ping || command is Quit),
        match *command {
            Command::Stats => answer matches StoreAnswer::Counters(list) && settled.outcome == Ok::<
                Reply,
                Failed,
            >(Reply::Stats(list)),
            Command::Version => answer matches StoreAnswer::Version(text) && settled.outcome
                == Ok::<Reply, Failed>(Reply::Version(text)),
            Command::Cluster => answer matches StoreAnswer::ClusterView(view) && settled.outcome
                == Ok::<Reply, Failed>(Reply::Cluster(view)),
            Command::ListKeys(_) | Command::ListTags(_) => gates.protocol.listing_enabled ==> (
            answer matches StoreAnswer::Listing(page) && settled.outcome == Ok::<Reply, Failed>(
                Reply::Listing(page),
            )),
            Command::Hello { protocol_version } => protocol_version == gates.protocol_version
                ==> settled.outcome == Ok::<Reply, Failed>(Reply::Hello(gates.info)),
            Command::Ping => settled.outcome == Ok::<Reply, Failed>(Reply::Pong),
            Command::Quit => settled.outcome == Ok::<Reply, Failed>(Reply::Closing),
            _ => true,
        },
{
}

} // verus!
