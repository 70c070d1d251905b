//! What a Redis client may rely on: each command taken the whole way, from its
//! words over the cache to the words of its answer.
use crate::dispatch;
use crate::dispatch::{Gates, Settled, StoreAnswer, StoreError};
use crate::domain;
use crate::domain::{
    Command, CoreError, Deadline, Delta, Number, SetRequest, TtlChange, MAX_TTL_SECS,
};
use crate::memcached;
use crate::memcached::ErrorText;
use crate::model;
use crate::model::{Cache, Record};
use crate::resp;
use crate::resp::{
    Condition, Element, ExpireCondition, Expiry, Fault, IncrEx, Increment, Pair, RespCommand,
};
use vstd::prelude::*;

verus! {

/// One command's way: what it was translated to, what the store answered, what
/// that was settled as, and what the client is shown.
pub struct Turn<'a> {
    pub before: Cache,
    pub command: RespCommand<'a>,
    pub now: i64,
    pub max: usize,
    pub gates: Gates,
    pub max_sync: usize,
    pub made: Command<'a>,
    pub answer: StoreAnswer,
    pub settled: Settled,
    pub shown: Option<Seq<Element>>,
    pub after: Cache,
}

impl<'a> Turn<'a> {
    /// Whether every step is one that this server takes.
    pub open spec fn taken(self) -> bool {
        &&& self.now == self.before.now
        &&& resp::translates(self.command, self.now, self.max, Ok(self.made))
        &&& model::served(
            self.before,
            &self.made,
            self.gates,
            self.answer,
            self.max_sync,
            self.settled,
            self.after,
        )
        &&& self.shown == (match self.settled.outcome {
            Ok(reply) => resp::rendering(self.command, reply, self.before.now),
            Err(_) => None,
        })
    }

    /// Whether the client is shown one element.
    pub open spec fn shows(self, element: Element) -> bool {
        self.shown == Some(seq![element])
    }
}

/// A value as a client is shown it: null where there is none.
pub open spec fn data_of(found: Option<Record>) -> Element {
    match found {
        Some(record) => Element::Bulk(record.data),
        None => Element::Null,
    }
}

/// Whatever the store may answer has words: no command that was translated is
/// answered with an internal error.
pub proof fn every_translated_command_is_answered(turn: Turn)
    requires
        turn.taken(),
    ensures
        turn.shown is Some,
{
}

/// A command that may run on a network worker changes nothing.
pub proof fn an_inline_command_changes_nothing(turn: Turn)
    requires
        turn.taken(),
        resp::reads_only(turn.command),
    ensures
        turn.after == turn.before,
{
}

/// `GET` shows the record under its key, and null where there is none.
pub proof fn get_shows_the_record(turn: Turn)
    requires
        turn.taken(),
        turn.command is Get,
    ensures
        turn.shows(data_of(turn.before.find(turn.command->Get_key@))),
        turn.after == turn.before,
{
}

/// `MGET` shows of every key what `GET` would, in order.
pub proof fn mget_shows_each_record(turn: Turn)
    requires
        turn.taken(),
        turn.command is MGet,
    ensures
        ({
            let keys = turn.command->MGet_keys@;
            &&& turn.after == turn.before
            &&& turn.shown matches Some(shown) && shown.len() == keys.len() + 1 && shown[0]
                == Element::Array(keys.len()) && forall|i: int|
                0 <= i < keys.len() ==> shown[i + 1] == data_of(
                    turn.before.find((#[trigger] keys[i])@),
                )
        }),
{
    let keys = turn.command->MGet_keys@;
    let made = turn.made->GetMany_0@;
    let values = turn.answer->Values_0@;
    let shown = turn.shown->0;
    assert forall|i: int| 0 <= i < keys.len() implies shown[i + 1] == data_of(
        turn.before.find((#[trigger] keys[i])@),
    ) by {
        assert(made[i].bytes == keys[i]);
        assert(model::shows(turn.before.find(made[i].bytes@), values[i]));
        assert(shown[i + 1] == resp::value_element(values[i]));
    }
}

/// The places at which keys name a record.
pub open spec fn found_at(cache: Cache, keys: Seq<&[u8]>) -> Set<int> {
    Set::new(|i: int| 0 <= i < keys.len() && cache.find(keys[i]@) is Some)
}

/// `EXISTS` shows how many of the keys it names are there, one named twice twice.
pub proof fn exists_counts_the_keys_that_are_there(turn: Turn)
    requires
        turn.taken(),
        turn.command is Exists,
    ensures
        turn.shows(
            Element::Integer(found_at(turn.before, turn.command->Exists_keys@).len() as i64),
        ),
        turn.after == turn.before,
{
    let keys = turn.command->Exists_keys@;
    let made = turn.made->Deadlines_0@;
    let found = turn.answer->Deadlines_0@;
    domain::present_entries_are_counted_by_place(found);
    assert forall|i: int| domain::places(found).contains(i) <==> found_at(
        turn.before,
        keys,
    ).contains(i) by {
        if 0 <= i < keys.len() {
            assert(made[i].bytes == keys[i]);
            assert(found[i] == model::deadline_at(turn.before, made[i]));
        }
    }
    assert(domain::places(found) =~= found_at(turn.before, keys));
}

/// `TYPE` shows whether a key is there.
pub proof fn type_tells_whether_a_key_is_there(turn: Turn)
    requires
        turn.taken(),
        turn.command is Type,
    ensures
        turn.shows(
            Element::Simple(
                if turn.before.find(turn.command->Type_key@) is Some {
                    "string"@
                } else {
                    "none"@
                },
            ),
        ),
        turn.after == turn.before,
{
}

/// `TTL` shows -2 for a key that is not there, -1 for one that stays, and
/// otherwise the seconds that are left, to the nearest.
pub proof fn ttl_shows_the_seconds_left(turn: Turn)
    requires
        turn.taken(),
        turn.command is Ttl,
    ensures
        turn.after == turn.before,
        match turn.before.find(turn.command->Ttl_key@) {
            None => turn.shows(Element::Integer(-2 as i64)),
            Some(record) => match record.deadline {
                Deadline::Never => turn.shows(Element::Integer(-1 as i64)),
                Deadline::At(at) => at >= turn.now ==> exists|n: i64|
                    #[trigger] turn.shows(Element::Integer(n)) && n >= 0 && -500 < n * 1_000 - (at
                        - turn.now) <= 500,
            },
        },
{
    let found = turn.before.find(turn.command->Ttl_key@);
    if let Some(record) = found {
        if let Deadline::At(at) = record.deadline {
            let n = resp::ttl_answer(Some(record.deadline), turn.before.now) as i64;
            assert(turn.shows(Element::Integer(n)));
        }
    }
}

/// `DEL` removes every key it names and no other, and shows how many were there:
/// one named twice counts once.
pub proof fn del_removes_and_counts(turn: Turn, name: Seq<u8>)
    requires
        turn.taken(),
        turn.command is Delete,
    ensures
        ({
            let keys = turn.command->Delete_keys@;
            &&& turn.shows(
                Element::Integer(
                    Set::new(
                        |i: int|
                            0 <= i < keys.len() && turn.before.find(keys[i]@) is Some && !(exists|
                                j: int,
                            |
                                0 <= j < i && (#[trigger] keys[j])@ == keys[i]@),
                    ).len() as i64,
                ),
            )
            &&& turn.after.find(name) == (if exists|i: int|
                0 <= i < keys.len() && (#[trigger] keys[i])@ == name {
                None
            } else {
                turn.before.find(name)
            })
        }),
{
    let keys = turn.command->Delete_keys@;
    let made = turn.made->DeleteMany_0@;
    let hits = turn.answer->DeletedMany_0@;
    let counted = Set::new(
        |i: int|
            0 <= i < keys.len() && turn.before.find(keys[i]@) is Some && !(exists|j: int|
                0 <= j < i && (#[trigger] keys[j])@ == keys[i]@),
    );
    domain::hits_are_counted_by_place(hits);
    assert forall|i: int| domain::hit_places(hits).contains(i) <==> counted.contains(i) by {
        if 0 <= i < keys.len() {
            assert(made[i].bytes == keys[i]);
            let earlier = made.take(i);
            if exists|j: int| 0 <= j < i && (#[trigger] keys[j])@ == keys[i]@ {
                let j = choose|j: int| 0 <= j < i && (#[trigger] keys[j])@ == keys[i]@;
                assert(made[j].bytes == keys[j]);
                assert(earlier[j].bytes@ == made[i].bytes@);
            }
            if model::names(earlier, made[i].bytes@) {
                let j = choose|j: int|
                    0 <= j < earlier.len() && (#[trigger] earlier[j]).bytes@ == made[i].bytes@;
                assert(made[j].bytes == keys[j]);
                assert(keys[j]@ == keys[i]@);
            }
            assert(hits[i] <==> turn.before.find(made[i].bytes@) is Some && !model::names(
                made.take(i),
                made[i].bytes@,
            ));
        }
    }
    assert(domain::hit_places(hits) =~= counted);
    if exists|i: int| 0 <= i < keys.len() && (#[trigger] keys[i])@ == name {
        let i = choose|i: int| 0 <= i < keys.len() && (#[trigger] keys[i])@ == name;
        assert(made[i].bytes == keys[i]);
        assert(model::names(made, name));
    } else if model::names(made, name) {
        let i = choose|i: int| 0 <= i < made.len() && (#[trigger] made[i]).bytes@ == name;
        assert(made[i].bytes == keys[i]);
        assert(keys[i]@ == name);
    }
}

/// The deadline in unix milliseconds that an expiry option names, if it names one.
pub open spec fn asked_for(expiry: Expiry, now: i64) -> Option<int> {
    match expiry {
        Expiry::After(millis) => Some(now + millis),
        Expiry::At(millis) => Some(millis as int),
        _ => None,
    }
}

/// Whether a deadline lies ahead and the store's field can express it, at a time
/// past the first 30 days of 1970.
pub open spec fn in_reach(asked: int, now: i64) -> bool {
    MAX_TTL_SECS * 1_000 <= now < asked <= 4_294_967_294_000
}

/// Whether a deadline is, within a second, one that was asked for, and ahead.
pub open spec fn scheduled(deadline: Deadline, asked: int, now: i64) -> bool {
    deadline matches Deadline::At(at) && at > now && -1_000 < at - asked <= 1_000
}

/// The furthest deadline that the store's field can express, in unix milliseconds.
pub const FURTHEST_MS: u64 = 4_294_967_294_000;

/// Whether a deadline lies further ahead than the store's field can express.
pub open spec fn beyond_reach(asked: int, now: i64) -> bool {
    MAX_TTL_SECS * 1_000 <= now < FURTHEST_MS < asked
}

proof fn lemma_scheduled(asked: int, now: i64)
    requires
        i64::MIN <= asked <= i64::MAX,
        now >= 0,
    ensures
        in_reach(asked, now) ==> (model::due(
            resp::stamp_of(asked as i64, now),
            now as u64,
        ) matches Some(deadline) && scheduled(deadline, asked, now)),
        asked <= now ==> model::due(resp::stamp_of(asked as i64, now), now as u64) is None,
        beyond_reach(asked, now) ==> model::due(resp::stamp_of(asked as i64, now), now as u64)
            == Some(Deadline::At(FURTHEST_MS)),
{
    if in_reach(asked, now) {
        resp::a_future_deadline_stays_in_the_future(asked as i64, now);
    }
    if asked <= now {
        resp::a_past_deadline_is_already_expired(asked as i64, now);
    }
}

/// Whether a condition on a write holds of what is there.
pub open spec fn condition_holds(condition: Condition, found: Option<Record>) -> bool {
    match condition {
        Condition::Always => true,
        Condition::IfAbsent => found is None,
        Condition::IfPresent => found is Some,
    }
}

/// Whether a record is one that was written with an expiry option over what was
/// there: it is there until its deadline, and not at all where that has passed.
pub open spec fn written(
    value: Seq<u8>,
    expiry: Expiry,
    found: Option<Record>,
    now: i64,
    new: Option<Record>,
) -> bool {
    match (expiry, new) {
        (Expiry::Unset, Some(new)) | (Expiry::Persist, Some(new)) => new.data == value
            && new.deadline is Never,
        (Expiry::Keep, Some(new)) => new.data == value && new.deadline == (match found {
            Some(old) => old.deadline,
            None => Deadline::Never,
        }),
        (Expiry::After(_), new) | (Expiry::At(_), new) => {
            let asked = asked_for(expiry, now)->0;
            &&& in_reach(asked, now) ==> (new matches Some(new) && new.data == value && scheduled(
                new.deadline,
                asked,
                now,
            ))
            &&& asked <= now ==> new is None
            &&& beyond_reach(asked, now) ==> (new matches Some(new) && new.data == value
                && new.deadline == Deadline::At(FURTHEST_MS))
        },
        _ => false,
    }
}

/// `SET` writes its value with the lifetime it asks for exactly where its condition
/// holds, and changes nothing else. It shows the old value where it was asked for
/// it, and otherwise whether it wrote.
pub proof fn set_writes_where_its_condition_holds(turn: Turn)
    requires
        turn.taken(),
        turn.command is SetOne,
    ensures
        ({
            let set = turn.command->SetOne_0;
            let found = turn.before.find(set.key@);
            let wrote = condition_holds(set.condition, found);
            &&& turn.after.differs_only_at(turn.before, set.key@)
            &&& !wrote ==> turn.after == turn.before
            &&& wrote ==> written(
                set.value@,
                set.expiry,
                found,
                turn.now,
                turn.after.find(set.key@),
            )
            &&& wrote ==> (turn.after.find(set.key@) matches Some(new) ==> new.flags == 0
                && forall|tag: Seq<u8>| !new.tags.contains(tag))
            &&& turn.shows(
                if set.return_previous {
                    data_of(found)
                } else if wrote {
                    Element::Okay
                } else {
                    Element::Null
                },
            )
        }),
{
    let set = turn.command->SetOne_0;
    if let Some(asked) = asked_for(set.expiry, turn.now) {
        lemma_scheduled(asked, turn.now);
    }
}

proof fn lemma_unwritten(before: Cache, sets: Seq<SetRequest>, after: Cache, name: Seq<u8>)
    requires
        model::stores_all(before, sets, after),
        forall|i: int| 0 <= i < sets.len() ==> (#[trigger] sets[i]).key.bytes@ != name,
    ensures
        after.find(name) == before.find(name),
        after.now == before.now,
        after.tags == before.tags,
    decreases sets.len(),
{
    if sets.len() > 0 {
        let (between, outcome) = choose|between: Cache, outcome: domain::Stored|
            model::stores_all(before, sets.drop_last(), between) && #[trigger] model::stores(
                between,
                sets.last(),
                outcome,
                after,
            );
        lemma_unwritten(before, sets.drop_last(), between, name);
        assert(sets[sets.len() - 1].key.bytes@ != name);
    }
}

proof fn lemma_time_stands(before: Cache, sets: Seq<SetRequest>, after: Cache)
    requires
        model::stores_all(before, sets, after),
    ensures
        after.now == before.now,
    decreases sets.len(),
{
    if sets.len() > 0 {
        let (between, outcome) = choose|between: Cache, outcome: domain::Stored|
            model::stores_all(before, sets.drop_last(), between) && #[trigger] model::stores(
                between,
                sets.last(),
                outcome,
                after,
            );
        lemma_time_stands(before, sets.drop_last(), between);
    }
}

proof fn lemma_written(before: Cache, sets: Seq<SetRequest>, after: Cache, i: int)
    requires
        model::stores_all(before, sets, after),
        0 <= i < sets.len(),
        sets[i].mode == domain::SetMode::Always,
        forall|j: int|
            i < j < sets.len() ==> (#[trigger] sets[j]).key.bytes@ != sets[i].key.bytes@,
    ensures
        match (sets[i].ttl, after.find(sets[i].key.bytes@)) {
            (TtlChange::To(ttl), Some(new)) => new.data == sets[i].value@ && model::due(
                ttl,
                before.now,
            ) == Some(new.deadline),
            (TtlChange::To(ttl), None) => model::due(ttl, before.now) is None,
            (TtlChange::Keep, Some(new)) => new.data == sets[i].value@,
            (TtlChange::Keep, None) => false,
            _ => true,
        },
    decreases sets.len(),
{
    let front = sets.drop_last();
    let (between, outcome) = choose|between: Cache, outcome: domain::Stored|
        model::stores_all(before, front, between) && #[trigger] model::stores(
            between,
            sets.last(),
            outcome,
            after,
        );
    lemma_time_stands(before, front, between);
    if i < sets.len() - 1 {
        assert forall|j: int| i < j < front.len() implies (#[trigger] front[j]).key.bytes@
            != front[i].key.bytes@ by {
            assert(front[j] == sets[j]);
        }
        lemma_written(before, front, between, i);
        assert(sets[sets.len() - 1].key.bytes@ != sets[i].key.bytes@);
    }
}

/// Whether a pair is the last of its key.
pub open spec fn last_of_its_key(pairs: Seq<Pair>, i: int) -> bool {
    forall|j: int| i < j < pairs.len() ==> (#[trigger] pairs[j]).key@ != pairs[i].key@
}

/// `MSET` writes the last value it has for each key, to stay, and nothing else.
pub proof fn mset_writes_every_pair(turn: Turn, name: Seq<u8>, i: int)
    requires
        turn.taken(),
        turn.command is MSet,
    ensures
        ({
            let pairs = turn.command->MSet_pairs@;
            &&& turn.shows(Element::Okay)
            &&& 0 <= i < pairs.len() && last_of_its_key(pairs, i) ==> written(
                pairs[i].value@,
                Expiry::Unset,
                None,
                turn.now,
                turn.after.find(pairs[i].key@),
            )
            &&& (forall|j: int| 0 <= j < pairs.len() ==> (#[trigger] pairs[j]).key@ != name)
                ==> turn.after.find(name) == turn.before.find(name)
        }),
{
    let pairs = turn.command->MSet_pairs@;
    let sets = turn.made->SetMany_sets@;
    lemma_pairs(turn.before, sets, pairs, TtlChange::To(0), turn.after, name, i);
}

proof fn lemma_pairs(
    before: Cache,
    sets: Seq<SetRequest>,
    pairs: Seq<Pair>,
    ttl: TtlChange,
    after: Cache,
    name: Seq<u8>,
    i: int,
)
    requires
        resp::plain_sets(sets, pairs, ttl),
        model::stores_all(before, sets, after),
    ensures
        0 <= i < pairs.len() && last_of_its_key(pairs, i) ==> match (
            ttl,
            after.find(pairs[i].key@),
        ) {
            (TtlChange::To(ttl), Some(new)) => new.data == pairs[i].value@ && model::due(
                ttl,
                before.now,
            ) == Some(new.deadline),
            (TtlChange::To(ttl), None) => model::due(ttl, before.now) is None,
            (TtlChange::Keep, Some(new)) => new.data == pairs[i].value@,
            (TtlChange::Keep, None) => false,
            _ => true,
        },
        (forall|j: int| 0 <= j < pairs.len() ==> (#[trigger] pairs[j]).key@ != name) ==> after.find(
            name,
        ) == before.find(name),
{
    if 0 <= i < pairs.len() && last_of_its_key(pairs, i) {
        assert(resp::plain_set(sets[i], pairs[i], ttl));
        assert forall|j: int| i < j < sets.len() implies (#[trigger] sets[j]).key.bytes@
            != sets[i].key.bytes@ by {
            assert(resp::plain_set(sets[j], pairs[j], ttl));
            assert(pairs[j].key@ != pairs[i].key@);
        }
        lemma_written(before, sets, after, i);
    }
    if forall|j: int| 0 <= j < pairs.len() ==> (#[trigger] pairs[j]).key@ != name {
        assert forall|j: int| 0 <= j < sets.len() implies (#[trigger] sets[j]).key.bytes@
            != name by {
            assert(resp::plain_set(sets[j], pairs[j], ttl));
            assert(pairs[j].key@ != name);
        }
        lemma_unwritten(before, sets, after, name);
    }
}

/// Whether a condition on a batch holds: of all its keys.
pub open spec fn holds_of_all(condition: Condition, cache: Cache, pairs: Seq<Pair>) -> bool {
    forall|i: int|
        0 <= i < pairs.len() ==> condition_holds(condition, cache.find((#[trigger] pairs[i]).key@))
}

/// `MSETEX` writes all its pairs with their lifetime, and shows 1, exactly where its
/// condition holds of every key; otherwise it writes none of them, and shows 0.
pub proof fn msetex_writes_all_or_nothing(turn: Turn, name: Seq<u8>, i: int)
    requires
        turn.taken(),
        turn.command is MSetEx,
    ensures
        ({
            let pairs = turn.command->MSetEx_pairs@;
            let expiry = turn.command->MSetEx_expiry;
            if holds_of_all(turn.command->MSetEx_condition, turn.before, pairs) {
                &&& turn.shows(Element::Integer(1))
                &&& 0 <= i < pairs.len() && last_of_its_key(pairs, i) && expiry !is Keep
                    ==> written(
                    pairs[i].value@,
                    expiry,
                    None,
                    turn.now,
                    turn.after.find(pairs[i].key@),
                )
                &&& 0 <= i < pairs.len() && last_of_its_key(pairs, i) && expiry is Keep ==> (
                turn.after.find(pairs[i].key@) matches Some(new) && new.data == pairs[i].value@)
                &&& (forall|j: int| 0 <= j < pairs.len() ==> (#[trigger] pairs[j]).key@ != name)
                    ==> turn.after.find(name) == turn.before.find(name)
            } else {
                turn.shows(Element::Integer(0)) && turn.after == turn.before
            }
        }),
{
    let pairs = turn.command->MSetEx_pairs@;
    let expiry = turn.command->MSetEx_expiry;
    let condition = turn.command->MSetEx_condition;
    let sets = turn.made->SetMany_sets@;
    let guard = turn.made->SetMany_guard;
    let ttl = resp::lifetime_of(expiry, turn.now)->0;
    if let Some(asked) = asked_for(expiry, turn.now) {
        lemma_scheduled(asked, turn.now);
    }
    assert(holds_of_all(condition, turn.before, pairs) <==> model::guard_holds(
        guard,
        turn.before,
        sets,
    )) by {
        assert forall|j: int| 0 <= j < sets.len() implies (#[trigger] sets[j]).key.bytes
            == pairs[j].key by {
            assert(resp::plain_set(sets[j], pairs[j], ttl));
        }
        if holds_of_all(condition, turn.before, pairs) {
            assert forall|j: int| 0 <= j < sets.len() implies condition_holds(
                condition,
                turn.before.find((#[trigger] sets[j]).key.bytes@),
            ) by {
                assert(condition_holds(condition, turn.before.find(pairs[j].key@)));
            }
        }
        if model::guard_holds(guard, turn.before, sets) {
            assert forall|j: int| 0 <= j < pairs.len() implies condition_holds(
                condition,
                turn.before.find((#[trigger] pairs[j]).key@),
            ) by {
                assert(sets[j].key.bytes == pairs[j].key);
            }
        }
    }
    if holds_of_all(condition, turn.before, pairs) {
        lemma_pairs(turn.before, sets, pairs, ttl, turn.after, name, i);
    }
}

/// `APPEND` makes a value longer by what it appends, or starts one, and shows how
/// long it is.
pub proof fn append_shows_the_new_length(turn: Turn)
    requires
        turn.taken(),
        turn.command is Append,
    ensures
        ({
            let key = turn.command->Append_key@;
            let value = turn.command->Append_value@;
            &&& turn.after.differs_only_at(turn.before, key)
            &&& turn.after.find(key) matches Some(new) && new.data == (match turn.before.find(key) {
                Some(old) => old.data + value,
                None => value,
            }) && turn.shows(Element::Integer(new.data.len() as u64 as i64))
        }),
{
}

/// `EXPIRE` gives a key that is there a deadline where its condition lets it, shows
/// whether it did, and changes nothing else of it.
pub proof fn expire_sets_the_deadline_where_its_condition_holds(turn: Turn, asked: int)
    requires
        turn.taken(),
        turn.command is Expire,
        asked_for(turn.command->Expire_expiry, turn.now) == Some(asked),
        in_reach(asked, turn.now) || asked <= turn.now && asked >= i64::MIN,
    ensures
        ({
            let key = turn.command->Expire_key@;
            let condition = turn.command->Expire_condition;
            let yes = turn.shows(Element::Integer(1));
            let new = turn.after.find(key);
            &&& turn.after.differs_only_at(turn.before, key)
            &&& !yes ==> turn.shows(Element::Integer(0)) && turn.after == turn.before
            &&& match turn.before.find(key) {
                None => !yes,
                Some(old) => {
                    &&& yes && asked <= turn.now ==> new is None
                    &&& yes && asked > turn.now ==> (new matches Some(new) && new == Record {
                        deadline: new.deadline,
                        ..old
                    } && scheduled(new.deadline, asked, turn.now))
                    &&& match condition {
                        ExpireCondition::Always => yes,
                        ExpireCondition::IfPersistent => yes <==> old.deadline is Never,
                        ExpireCondition::IfVolatile => yes <==> old.deadline !is Never,
                        ExpireCondition::IfLater => {
                            &&& yes ==> (new matches Some(new) && model::later(
                                new.deadline,
                                old.deadline,
                            ))
                            &&& old.deadline is Never ==> !yes
                            &&& old.deadline matches Deadline::At(at) ==> (asked > turn.now && asked
                                >= at + 1_000 ==> yes)
                        },
                        ExpireCondition::IfEarlier => {
                            &&& yes && asked > turn.now ==> (new matches Some(new)
                                && model::later(old.deadline, new.deadline))
                            &&& asked <= turn.now ==> yes
                            &&& old.deadline is Never ==> yes
                            &&& old.deadline matches Deadline::At(at) ==> (asked + 1_000 < at
                                ==> yes)
                        },
                    }
                },
            }
        }),
{
    lemma_scheduled(asked, turn.now);
    assert(Element::Integer(1) != Element::Integer(0));
    assert(seq![Element::Integer(1)][0] != seq![Element::Integer(0)][0]);
}

/// `PERSIST` takes the deadline of a key that has one, and shows whether it did.
pub proof fn persist_takes_the_deadline_away(turn: Turn)
    requires
        turn.taken(),
        turn.command is Persist,
    ensures
        ({
            let key = turn.command->Persist_key@;
            &&& turn.after.differs_only_at(turn.before, key)
            &&& match turn.before.find(key) {
                Some(old) if old.deadline !is Never => {
                    &&& turn.shows(Element::Integer(1))
                    &&& turn.after.find(key) == Some(Record { deadline: Deadline::Never, ..old })
                },
                _ => turn.shows(Element::Integer(0)) && turn.after == turn.before,
            }
        }),
{
}

/// What a key counts: zero where it is not there.
pub open spec fn count_at(cache: Cache, key: Seq<u8>) -> Option<int> {
    match cache.find(key) {
        Some(record) => model::number_of(record.data),
        None => Some(0),
    }
}

/// `INCR` and its siblings leave a key at what it counted, or zero where it was not
/// there, plus the increment; that number is shown, and neither the lifetime of the
/// key nor anything else changes.
pub proof fn incr_counts_from_what_was_there(turn: Turn, delta: i64)
    requires
        turn.taken(),
        turn.command is Incr,
        turn.command->Incr_delta == Increment::Int(delta),
    ensures
        ({
            let key = turn.command->Incr_key@;
            &&& turn.after.differs_only_at(turn.before, key)
            &&& count_at(turn.before, key) matches Some(n) && count_at(turn.after, key) == Some(
                n + delta,
            ) && turn.shows(Element::Integer((n + delta) as i64))
            &&& turn.after.find(key) matches Some(new) && new.deadline == (match turn.before.find(
                key,
            ) {
                Some(old) => old.deadline,
                None => Deadline::Never,
            })
        }),
{
}

/// An increment that fits is never refused: whatever key there is that counts, and
/// where there is none, the operation asked of the store has a result.
pub proof fn incr_never_misses(turn: Turn)
    requires
        turn.taken(),
        turn.command is Incr,
    ensures
        turn.shown matches Some(shown) && shown.len() == 1 && match turn.command->Incr_delta {
            Increment::Int(_) => shown[0] is Integer,
            Increment::Float(_) => shown[0] is FloatText,
        },
        turn.settled.outcome matches Ok(reply) && reply is Arithmetic,
{
}

/// The bounds of an integer `INCREX`: those of its type where it names none.
pub open spec fn int_bounds(op: IncrEx) -> (int, int) {
    (
        match op.lower {
            Some(Increment::Int(lower)) => lower as int,
            _ => i64::MIN as int,
        },
        match op.upper {
            Some(Increment::Int(upper)) => upper as int,
            _ => i64::MAX as int,
        },
    )
}

/// `INCREX` moves a counter, or zero where there is none, by its increment where
/// that stays within the bounds. Where it would not, it stops at the bound if it
/// saturates and does nothing if it does not. It shows the count and how far it
/// moved.
pub proof fn increx_moves_within_its_bounds(turn: Turn, delta: i64)
    requires
        turn.taken(),
        turn.command is IncrEx,
        turn.command->IncrEx_0.delta == Increment::Int(delta),
    ensures
        ({
            let op = turn.command->IncrEx_0;
            let (lower, upper) = int_bounds(op);
            let asked = op.expiry matches Some(Expiry::After(_)) || op.expiry matches Some(
                Expiry::At(_),
            );
            &&& turn.after.differs_only_at(turn.before, op.key@)
            &&& count_at(turn.before, op.key@) matches Some(n) && {
                let within = lower <= n + delta <= upper;
                let to = if within {
                    n + delta
                } else if !op.saturate {
                    n
                } else if n + delta < lower {
                    lower
                } else {
                    upper
                };
                &&& turn.shown == Some(
                    seq![
                        Element::Array(2),
                        Element::Integer(to as i64),
                        Element::Integer((to - n) as i64),
                    ],
                )
                &&& !within && !op.saturate ==> turn.after == turn.before
                &&& (within || op.saturate) && !asked ==> count_at(turn.after, op.key@) == Some(to)
            }
        }),
{
}

/// What `INCREX` does to the lifetime: nothing where it names none, and what it
/// names where it does, unless it is only for a key that stays and the key does
/// not.
pub proof fn increx_sets_the_lifetime_it_names(turn: Turn, delta: i64, n: int)
    requires
        turn.taken(),
        turn.command is IncrEx,
        turn.command->IncrEx_0.delta == Increment::Int(delta),
        count_at(turn.before, turn.command->IncrEx_0.key@) == Some(n),
        int_bounds(turn.command->IncrEx_0).0 <= n + delta <= int_bounds(
            turn.command->IncrEx_0,
        ).1,
    ensures
        ({
            let op = turn.command->IncrEx_0;
            let old = match turn.before.find(op.key@) {
                Some(old) => old.deadline,
                None => Deadline::Never,
            };
            let new = turn.after.find(op.key@);
            match op.expiry {
                None | Some(Expiry::Unset) | Some(Expiry::Keep) => new matches Some(new)
                    && new.deadline == old,
                Some(Expiry::Persist) => new matches Some(new) && new.deadline is Never,
                Some(expiry) => {
                    let asked = asked_for(expiry, turn.now)->0;
                    &&& op.only_if_persistent && old !is Never ==> (new matches Some(new)
                        && new.deadline == old)
                    &&& !op.only_if_persistent || old is Never ==> {
                        &&& in_reach(asked, turn.now) ==> (new matches Some(new) && scheduled(
                            new.deadline,
                            asked,
                            turn.now,
                        ))
                        &&& asked <= turn.now ==> new is None
                    }
                },
            }
        }),
{
    let op = turn.command->IncrEx_0;
    if let Some(expiry) = op.expiry {
        if let Some(asked) = asked_for(expiry, turn.now) {
            lemma_scheduled(asked, turn.now);
        }
    }
}

/// `PING` shows its message, or `PONG`, and asks nothing of the store.
pub proof fn ping_answers_at_once(turn: Turn)
    requires
        turn.taken(),
        turn.command is Ping,
    ensures
        turn.after == turn.before,
        turn.shows(
            match turn.command->Ping_message {
                Some(message) => Element::Bulk(message@),
                None => Element::Simple("PONG"@),
            },
        ),
        turn.made is Ping,
{
}

/// `INFO` shows the counters that were collected.
pub proof fn info_shows_the_counters(turn: Turn)
    requires
        turn.taken(),
        turn.command is Info,
    ensures
        turn.shows(Element::Info),
        turn.answer is Counters,
        turn.after == turn.before,
{
}

/// The keys that a command names.
pub open spec fn keys_named(command: RespCommand) -> Set<Seq<u8>> {
    match command {
        RespCommand::Get { key } => set![key@],
        RespCommand::MGet { keys } => Set::new(
            |name: Seq<u8>| exists|i: int| 0 <= i < keys@.len() && (#[trigger] keys@[i])@ == name,
        ),
        RespCommand::Exists { keys } => Set::new(
            |name: Seq<u8>| exists|i: int| 0 <= i < keys@.len() && (#[trigger] keys@[i])@ == name,
        ),
        RespCommand::Delete { keys } => Set::new(
            |name: Seq<u8>| exists|i: int| 0 <= i < keys@.len() && (#[trigger] keys@[i])@ == name,
        ),
        RespCommand::Type { key } => set![key@],
        RespCommand::Ttl { key } => set![key@],
        RespCommand::SetOne(set) => set![set.key@],
        RespCommand::MSet { pairs } => Set::new(
            |name: Seq<u8>|
                exists|i: int| 0 <= i < pairs@.len() && (#[trigger] pairs@[i]).key@ == name,
        ),
        RespCommand::MSetEx { pairs, .. } => Set::new(
            |name: Seq<u8>|
                exists|i: int| 0 <= i < pairs@.len() && (#[trigger] pairs@[i]).key@ == name,
        ),
        RespCommand::Append { key, .. } => set![key@],
        RespCommand::Expire { key, .. } => set![key@],
        RespCommand::Persist { key } => set![key@],
        RespCommand::Incr { key, .. } => set![key@],
        RespCommand::IncrEx(op) => set![op.key@],
        _ => Set::empty(),
    }
}

/// Whether a key is one that the store can hold.
pub open spec fn fits(name: Seq<u8>, max: usize) -> bool {
    0 < name.len() <= max
}

/// The expiry that a write names, which has to be a deadline that a clock can
/// show.
pub open spec fn expiry_named(command: RespCommand) -> Option<Expiry> {
    match command {
        RespCommand::SetOne(set) => Some(set.expiry),
        RespCommand::MSetEx { expiry, .. } => Some(expiry),
        RespCommand::IncrEx(op) => op.expiry,
        _ => None,
    }
}

/// Whether an integer `INCREX` names a bound that is no integer.
pub open spec fn mixes_numbers(command: RespCommand) -> bool {
    command matches RespCommand::IncrEx(op) && op.delta is Int && (op.lower matches Some(
        Increment::Float(_),
    ) || op.upper matches Some(Increment::Float(_)))
}

/// What a deadline that no clock can show is answered with: the command is named.
pub open spec fn expiry_complaint(command: RespCommand) -> Seq<char> {
    match command {
        RespCommand::SetOne(_) => "invalid expire time in 'set' command"@,
        RespCommand::MSetEx { .. } => "invalid expire time in 'msetex' command"@,
        _ => "invalid expire time in 'increx' command"@,
    }
}

/// A command that touches storage is taken exactly where all its keys fit, its
/// deadline is one that a clock can show, and its numbers are of one kind. Where it
/// is not, that is the client's doing, which the answer names, and nothing has counted
/// it yet.
pub proof fn a_command_is_taken_unless_it_is_wrong(
    command: RespCommand,
    now: i64,
    max: usize,
    out: Result<Command, Fault>,
)
    requires
        resp::translates(command, now, max, out),
        command !is Quit && command !is Auth && command !is Hello && command !is Scan,
    ensures
        out is Ok <==> {
            &&& forall|name: Seq<u8>| #[trigger]
                keys_named(command).contains(name) ==> fits(name, max)
            &&& match expiry_named(command) {
                Some(Expiry::After(millis)) => i64::MIN <= now + millis <= i64::MAX,
                _ => true,
            }
            &&& !mixes_numbers(command)
        },
        out matches Err(fault) ==> fault.class is Client && !fault.counted && fault.code
            == "ERR"@,
        out matches Err(fault) ==> {
            ||| fault.message == "invalid key"@ && !(forall|name: Seq<u8>| #[trigger]
                keys_named(command).contains(name) ==> fits(name, max))
            ||| fault.message == expiry_complaint(command) && (expiry_named(command) matches Some(
                Expiry::After(millis),
            ) && !(i64::MIN <= now + millis <= i64::MAX))
            ||| fault.message == "value is not an integer or out of range"@ && mixes_numbers(
                command,
            )
        },
{
    match command {
        RespCommand::MGet { keys } => lemma_keys(command, keys@, max),
        RespCommand::Exists { keys } => lemma_keys(command, keys@, max),
        RespCommand::Delete { keys } => lemma_keys(command, keys@, max),
        RespCommand::MSet { pairs } => lemma_pair_keys(command, pairs@, max),
        RespCommand::MSetEx { pairs, .. } => lemma_pair_keys(command, pairs@, max),
        RespCommand::Get { key } => assert(keys_named(command).contains(key@)),
        RespCommand::Type { key } => assert(keys_named(command).contains(key@)),
        RespCommand::Ttl { key } => assert(keys_named(command).contains(key@)),
        RespCommand::SetOne(set) => assert(keys_named(command).contains(set.key@)),
        RespCommand::Append { key, .. } => assert(keys_named(command).contains(key@)),
        RespCommand::Expire { key, .. } => assert(keys_named(command).contains(key@)),
        RespCommand::Persist { key } => assert(keys_named(command).contains(key@)),
        RespCommand::Incr { key, .. } => assert(keys_named(command).contains(key@)),
        RespCommand::IncrEx(op) => assert(keys_named(command).contains(op.key@)),
        _ => {},
    }
}

proof fn lemma_keys(command: RespCommand, keys: Seq<&[u8]>, max: usize)
    requires
        keys_named(command) == Set::new(
            |name: Seq<u8>| exists|i: int| 0 <= i < keys.len() && (#[trigger] keys[i])@ == name,
        ),
    ensures
        resp::all_valid(keys, max) <==> forall|name: Seq<u8>| #[trigger]
            keys_named(command).contains(name) ==> fits(name, max),
{
    if resp::all_valid(keys, max) {
        assert forall|name: Seq<u8>| #[trigger] keys_named(command).contains(name) implies fits(
            name,
            max,
        ) by {
            let i = choose|i: int| 0 <= i < keys.len() && (#[trigger] keys[i])@ == name;
            assert(resp::valid_key(keys[i], max));
        }
    } else {
        let i = choose|i: int| 0 <= i < keys.len() && !resp::valid_key(#[trigger] keys[i], max);
        assert(keys_named(command).contains(keys[i]@));
    }
}

proof fn lemma_pair_keys(command: RespCommand, pairs: Seq<Pair>, max: usize)
    requires
        keys_named(command) == Set::new(
            |name: Seq<u8>|
                exists|i: int| 0 <= i < pairs.len() && (#[trigger] pairs[i]).key@ == name,
        ),
    ensures
        resp::all_pairs_valid(pairs, max) <==> forall|name: Seq<u8>| #[trigger]
            keys_named(command).contains(name) ==> fits(name, max),
{
    if resp::all_pairs_valid(pairs, max) {
        assert forall|name: Seq<u8>| #[trigger] keys_named(command).contains(name) implies fits(
            name,
            max,
        ) by {
            let i = choose|i: int| 0 <= i < pairs.len() && (#[trigger] pairs[i]).key@ == name;
            assert(resp::valid_key(pairs[i].key, max));
        }
    } else {
        let i = choose|i: int|
            0 <= i < pairs.len() && !resp::valid_key((#[trigger] pairs[i]).key, max);
        assert(keys_named(command).contains(pairs[i].key@));
    }
}

/// An increment that fits is never refused: whatever a key counts, and where it is not
/// there, the operation that the store is asked for leads to the sum.
pub proof fn an_increment_that_fits_is_never_refused(
    before: Cache,
    command: RespCommand,
    now: i64,
    max: usize,
    made: Command,
    delta: i64,
    n: int,
)
    requires
        resp::translates(command, now, max, Ok(made)),
        command is Incr && command->Incr_delta == Increment::Int(delta),
        count_at(before, command->Incr_key@) == Some(n),
        i64::MIN <= n + delta <= i64::MAX,
    ensures
        made matches Command::Arithmetic(op) && op.key.bytes@ == command->Incr_key@ && (op.delta
            matches Delta::Int { delta: by, lower, upper } && model::moved(
            n,
            by as int,
            lower as int,
            upper as int,
            op.on_bound,
        ) == Some(n + delta)) && (before.find(op.key.bytes@) is None ==> op.missing
            == domain::Missing::CreateAtZero),
{
}

/// An `INCREX` within the range of its type never fails for its bounds: the operation
/// that the store is asked for always leads to a number, and makes a counter where
/// there is none.
pub proof fn a_bounded_increment_always_has_a_result(
    command: RespCommand,
    now: i64,
    max: usize,
    made: Command,
    delta: i64,
    n: int,
)
    requires
        resp::translates(command, now, max, Ok(made)),
        command is IncrEx && command->IncrEx_0.delta == Increment::Int(delta),
    ensures
        made matches Command::Arithmetic(op) && op.key.bytes@ == command->IncrEx_0.key@ && op.missing
            == domain::Missing::CreateAtZero && (op.delta matches Delta::Int {
            delta: by,
            lower,
            upper,
        } && by == delta && model::moved(
            n,
            by as int,
            lower as int,
            upper as int,
            op.on_bound,
        ) is Some),
{
}

/// The widest bounds a float may move between: all that is finite.
pub open spec fn finite_bounds() -> (u64, u64) {
    (0xffef_ffff_ffff_ffff, 0x7fef_ffff_ffff_ffff)
}

/// A float that is to be moved reaches the store as it was named, between the bounds
/// that were named, or all that is finite. What the store says it became, and how far
/// it moved, is what is shown.
pub proof fn a_float_increment_is_carried_and_shown(turn: Turn, bits: u64)
    requires
        turn.taken(),
        turn.command is Incr && turn.command->Incr_delta == Increment::Float(bits) || turn.command
            is IncrEx && turn.command->IncrEx_0.delta == Increment::Float(bits),
    ensures
        turn.made matches Command::Arithmetic(op) && (op.delta matches Delta::Float {
            delta,
            lower,
            upper,
        } && delta == bits && {
            let (low, high) = match turn.command {
                RespCommand::IncrEx(asked) => (asked.lower, asked.upper),
                _ => (None::<Increment>, None::<Increment>),
            };
            &&& bound_carried(low, finite_bounds().0, lower)
            &&& bound_carried(high, finite_bounds().1, upper)
        }),
        turn.answer matches StoreAnswer::Arithmetic(Some(applied)) && (applied.value
            matches Number::Float(value) && applied.applied matches Number::Float(by)
            && turn.shown == Some(
            if turn.command is Incr {
                seq![Element::FloatText(value)]
            } else {
                seq![Element::Array(2), Element::Double(value), Element::Double(by)]
            },
        )),
{
}

/// Whether a bound reached the store as it was named, or as the default where none was.
pub open spec fn bound_carried(
    named: Option<Increment>,
    default: u64,
    bound: domain::FloatBound,
) -> bool {
    match named {
        None => bound == domain::FloatBound::Bits(default),
        Some(Increment::Float(bits)) => bound == domain::FloatBound::Bits(bits),
        Some(Increment::Int(n)) => bound == domain::FloatBound::Integer(n),
    }
}

/// What a Redis client is told of a failure of the store. Client libraries match on
/// these words.
pub open spec fn redis_words(e: StoreError) -> (Seq<char>, Seq<char>) {
    match e {
        StoreError::CapacityFull | StoreError::TagLimit => (
            "OOM"@,
            "command not allowed when used memory > 'maxmemory'"@,
        ),
        StoreError::Overloaded | StoreError::ShuttingDown => (
            "ERR"@,
            "server is overloaded, try again"@,
        ),
        StoreError::Unsupported => ("ERR"@, "unsupported operation"@),
        StoreError::Other => ("ERR"@, "internal error"@),
        StoreError::Core(cause) => (
            "ERR"@,
            match cause {
                CoreError::NotAnInteger => "value is not an integer or out of range"@,
                CoreError::NotAFloat => "value is not a valid float"@,
                CoreError::Overflow => "increment or decrement would overflow"@,
                CoreError::NotFinite => "increment would produce NaN or Infinity"@,
                CoreError::EmptyKey | CoreError::KeyTooLong => "invalid key"@,
                CoreError::ValueTooLarge => "string exceeds maximum allowed size"@,
                CoreError::Invalid => "invalid argument"@,
            },
        ),
    }
}

/// What a memcached client is told of a failure of the store.
pub open spec fn memcached_words(e: StoreError) -> ErrorText {
    match e {
        StoreError::CapacityFull | StoreError::TagLimit => ErrorText::Server(
            "out of memory storing object"@,
        ),
        StoreError::Overloaded | StoreError::ShuttingDown => ErrorText::Server(
            "server is overloaded"@,
        ),
        StoreError::Unsupported => ErrorText::Error,
        StoreError::Other => ErrorText::Server("internal error"@),
        StoreError::Core(cause) => match cause {
            CoreError::NotAnInteger | CoreError::NotAFloat | CoreError::Overflow
            | CoreError::NotFinite => ErrorText::Client(
                "cannot increment or decrement non-numeric value"@,
            ),
            CoreError::KeyTooLong | CoreError::ValueTooLarge => ErrorText::Server(
                "object too large for cache"@,
            ),
            CoreError::EmptyKey | CoreError::Invalid => ErrorText::Client(
                "bad command line format"@,
            ),
        },
    }
}

/// A failure of the store, however a command met it, reaches every client in the words
/// that its own kind of client knows, and is counted once, where it happened.
pub proof fn a_failure_of_the_store_is_told_in_each_clients_words(
    e: StoreError,
    command: Command,
    max_sync: usize,
    settled: Settled,
)
    requires
        dispatch::settles(command, Err(e), max_sync, settled),
    ensures
        settled.outcome matches Err(failed) && {
            &&& resp::fault_of(failed).code == redis_words(e).0
            &&& resp::fault_of(failed).message == redis_words(e).1
            &&& resp::fault_of(failed).counted
            &&& memcached::error_text(failed.status) == memcached_words(e)
        },
{
}

/// A command that is turned off here is told to be, in each client's words.
pub proof fn a_command_that_is_turned_off_says_so(
    before: Cache,
    command: &Command,
    gates: Gates,
    answer: StoreAnswer,
    max_sync: usize,
    settled: Settled,
    after: Cache,
)
    requires
        model::served(before, command, gates, answer, max_sync, settled, after),
        command is Flush && !gates.protocol.flush_enabled || (command is ListKeys || command
            is ListTags) && !gates.protocol.listing_enabled,
    ensures
        settled.outcome matches Err(failed) && {
            &&& failed.status == domain::Status::Unauthorized
            &&& resp::fault_of(failed).message == "command disabled by configuration"@
            &&& memcached::error_text(failed.status) == ErrorText::Client(
                "command disabled by configuration"@,
            )
        },
{
}

/// An `EXPIRE` too far ahead for the store, or for any clock, gives a key the furthest
/// deadline there is rather than none of its life; one too far back ends it.
pub proof fn an_expire_out_of_range_keeps_its_direction(turn: Turn, asked: int)
    requires
        turn.taken(),
        turn.command is Expire,
        turn.command->Expire_condition == ExpireCondition::Always,
        asked_for(turn.command->Expire_expiry, turn.now) == Some(asked),
        turn.before.find(turn.command->Expire_key@) is Some,
        MAX_TTL_SECS * 1_000 <= turn.now < FURTHEST_MS,
    ensures
        turn.shows(Element::Integer(1)),
        asked > FURTHEST_MS ==> turn.after.find(turn.command->Expire_key@) == Some(
            Record {
                deadline: Deadline::At(FURTHEST_MS),
                ..turn.before.find(turn.command->Expire_key@)->0
            },
        ),
        asked <= turn.now ==> turn.after.find(turn.command->Expire_key@) is None,
{
    let kept = if asked > i64::MAX {
        i64::MAX as int
    } else if asked < i64::MIN {
        i64::MIN as int
    } else {
        asked
    };
    lemma_scheduled(kept, turn.now);
}

} // verus!
