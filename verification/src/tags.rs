//! Tag generations: what a node tells a peer it is behind on, and the digest it
//! offers.
//!
//! Generations merge by maximum, so delivery may repeat, reorder and lose
//! messages without harm.
use crate::domain::{TagGeneration, TagOffer};
use crate::text;
use vstd::prelude::*;

verus! {

/// A tag's name and how often it was invalidated.
#[verifier::ext_equal]
pub struct Tag {
    pub name: Seq<u8>,
    pub generation: u64,
}

impl View for TagGeneration {
    type V = Tag;

    open spec fn view(&self) -> Tag {
        Tag { name: self.name@, generation: self.generation }
    }
}

/// The tags of a list.
pub open spec fn views(list: Seq<TagGeneration>) -> Seq<Tag> {
    Seq::new(list.len(), |i: int| list[i]@)
}

/// The tags a peer offers.
pub open spec fn offers(list: Seq<TagOffer>) -> Seq<Tag> {
    Seq::new(list.len(), |i: int| Tag { name: list[i].name@, generation: list[i].generation })
}

/// What a table knows of a name. The last entry counts where a name occurs
/// twice.
pub open spec fn known_as(table: Seq<Tag>, name: Seq<u8>) -> Option<u64>
    decreases table.len(),
{
    if table.len() == 0 {
        None
    } else if table.last().name == name {
        Some(table.last().generation)
    } else {
        known_as(table.drop_last(), name)
    }
}

/// The offered tags that `table` knows a higher generation of, with that
/// generation, in the order they were offered.
pub open spec fn outdated(offered: Seq<Tag>, table: Seq<Tag>) -> Seq<Tag>
    decreases offered.len(),
{
    if offered.len() == 0 {
        Seq::empty()
    } else {
        let rest = outdated(offered.drop_last(), table);
        let last = offered.last();
        match known_as(table, last.name) {
            Some(mine) if mine > last.generation => rest.push(
                Tag { name: last.name, generation: mine },
            ),
            _ => rest,
        }
    }
}

/// The tags of `table` that were invalidated and not offered at all.
pub open spec fn unmentioned(table: Seq<Tag>, offered: Seq<Tag>) -> Seq<Tag>
    decreases table.len(),
{
    if table.len() == 0 {
        Seq::empty()
    } else {
        let rest = unmentioned(table.drop_last(), offered);
        let last = table.last();
        if last.generation > 0 && known_as(offered, last.name) is None {
            rest.push(last)
        } else {
            rest
        }
    }
}

/// What a peer is told it is behind on.
///
/// Only a peer that listed its whole table can be told about tags it never
/// mentioned: against a partial push there is no way to tell "does not know it"
/// from "did not fit in this message".
pub open spec fn behind(full: bool, offered: Seq<Tag>, table: Seq<Tag>, max: nat) -> Seq<Tag> {
    let all = if full {
        outdated(offered, table) + unmentioned(table, offered)
    } else {
        outdated(offered, table)
    };
    if all.len() > max {
        all.take(max as int)
    } else {
        all
    }
}

fn copy_bytes(bytes: &[u8]) -> (out: Vec<u8>)
    ensures
        out@ == bytes@,
{
    vstd::slice::slice_to_vec(bytes)
}

/// A copy of a tag.
pub fn copy_tag(tag: &TagGeneration) -> (copy: TagGeneration)
    ensures
        copy@ == tag@,
{
    TagGeneration { name: copy_bytes(&tag.name), generation: tag.generation }
}

fn find_known(table: &Vec<TagGeneration>, name: &[u8]) -> (found: Option<u64>)
    ensures
        found == known_as(views(table@), name@),
{
    let mut end: usize = table.len();
    let ghost all = views(table@);
    assert(all.take(end as int) =~= all);
    while end > 0
        invariant
            all == views(table@),
            end <= table@.len(),
            known_as(all.take(end as int), name@) == known_as(all, name@),
        decreases end,
    {
        let entry = &table[end - 1];
        assert(all.take(end as int).last() == entry@);
        assert(all.take(end as int).drop_last() =~= all.take(end - 1));
        if text::same_bytes(&entry.name, name) {
            return Some(entry.generation);
        }
        end = end - 1;
    }
    None
}

fn is_offered(offered: &Vec<TagOffer>, name: &[u8]) -> (yes: bool)
    ensures
        yes == (known_as(offers(offered@), name@) is Some),
{
    let mut end: usize = offered.len();
    let ghost all = offers(offered@);
    assert(all.take(end as int) =~= all);
    while end > 0
        invariant
            all == offers(offered@),
            end <= offered@.len(),
            known_as(all.take(end as int), name@) == known_as(all, name@),
        decreases end,
    {
        let entry = &offered[end - 1];
        assert(all.take(end as int).last().name == entry.name@);
        assert(all.take(end as int).drop_last() =~= all.take(end - 1));
        if text::same_bytes(entry.name, name) {
            return true;
        }
        end = end - 1;
    }
    false
}

/// Answers a peer's offer: what it is behind on, computed from what this node
/// knew before merging the offer.
///
/// Afterwards every offered generation is one this node also holds, so "we know
/// better" would be true of nothing.
pub fn tag_sync(
    full: bool,
    offered: &Vec<TagOffer>,
    known: &Vec<TagGeneration>,
    max: usize,
) -> (answer: Vec<TagGeneration>)
    ensures
        views(answer@) == behind(full, offers(offered@), views(known@), max as nat),
        informs(full, offers(offered@), views(known@), max as nat, views(answer@)),
{
    let ghost model = offers(offered@);
    let ghost table = views(known@);
    let mut answer: Vec<TagGeneration> = Vec::new();
    let mut i: usize = 0;
    assert(views(answer@) =~= outdated(model.take(0), table));
    while i < offered.len()
        invariant
            model == offers(offered@),
            table == views(known@),
            i <= offered@.len(),
            views(answer@) == outdated(model.take(i as int), table),
        decreases offered@.len() - i,
    {
        let offer = &offered[i];
        assert(model.take(i + 1).drop_last() =~= model.take(i as int));
        assert(model.take(i + 1).last() == model[i as int]);
        let ghost before = answer@;
        if let Some(mine) = find_known(known, offer.name) {
            if mine > offer.generation {
                let entry = TagGeneration { name: copy_bytes(offer.name), generation: mine };
                answer.push(entry);
                assert(views(answer@) =~= views(before).push(entry@));
            }
        }
        i = i + 1;
    }
    assert(model.take(i as int) =~= model);
    if full {
        let ghost first = views(answer@);
        let mut k: usize = 0;
        assert(first + unmentioned(table.take(0), model) =~= first);
        while k < known.len()
            invariant
                model == offers(offered@),
                table == views(known@),
                k <= known@.len(),
                views(answer@) == first + unmentioned(table.take(k as int), model),
            decreases known@.len() - k,
        {
            let entry = &known[k];
            assert(table.take(k + 1).drop_last() =~= table.take(k as int));
            assert(table.take(k + 1).last() == table[k as int]);
            let ghost before = answer@;
            if entry.generation > 0 && !is_offered(offered, &entry.name) {
                let copy = copy_tag(entry);
                answer.push(copy);
                assert(views(answer@) =~= views(before).push(copy@));
            }
            k = k + 1;
            assert(views(answer@) =~= first + unmentioned(table.take(k as int), model));
        }
        assert(table.take(k as int) =~= table);
    }
    let ghost whole = views(answer@);
    if answer.len() > max {
        answer.truncate(max);
        assert(views(answer@) =~= whole.take(max as int));
    }
    proof {
        an_answer_informs(full, model, table, max as nat);
    }
    answer
}

/// Whether no name occurs twice.
pub open spec fn distinct(table: Seq<Tag>) -> bool {
    forall|i: int, j: int|
        0 <= i < j < table.len() ==> (#[trigger] table[i]).name != (#[trigger] table[j]).name
}

/// A tag's generation in a table: zero where the tag was never invalidated.
pub open spec fn generation_of(table: Seq<Tag>, name: Seq<u8>) -> u64 {
    match known_as(table, name) {
        Some(generation) => generation,
        None => 0,
    }
}

/// Merging takes the larger generation.
pub open spec fn merged(a: u64, b: u64) -> u64 {
    if a >= b {
        a
    } else {
        b
    }
}

/// Merging is idempotent, commutative and associative: replayed, reordered and
/// repeated deliveries change nothing.
pub proof fn merging_is_sloppy_safe(a: u64, b: u64, c: u64)
    ensures
        merged(a, a) == a,
        merged(a, b) == merged(b, a),
        merged(merged(a, b), c) == merged(a, merged(b, c)),
        merged(a, b) >= a,
{
}

proof fn lemma_known_in(table: Seq<Tag>, name: Seq<u8>, i: int)
    requires
        distinct(table),
        0 <= i < table.len(),
        table[i].name == name,
    ensures
        known_as(table, name) == Some(table[i].generation),
    decreases table.len(),
{
    if i < table.len() - 1 {
        lemma_known_in(table.drop_last(), name, i);
    }
}

proof fn lemma_known_append(a: Seq<Tag>, b: Seq<Tag>, name: Seq<u8>)
    ensures
        known_as(a + b, name) == (match known_as(b, name) {
            Some(g) => Some(g),
            None => known_as(a, name),
        }),
    decreases b.len(),
{
    if b.len() == 0 {
        assert(a + b =~= a);
    } else {
        assert((a + b).last() == b.last());
        assert((a + b).drop_last() =~= a + b.drop_last());
        lemma_known_append(a, b.drop_last(), name);
    }
}

proof fn lemma_outdated(offered: Seq<Tag>, table: Seq<Tag>, name: Seq<u8>)
    requires
        distinct(offered),
    ensures
        known_as(outdated(offered, table), name) == (match (
            known_as(offered, name),
            known_as(table, name),
        ) {
            (Some(theirs), Some(ours)) if ours > theirs => Some(ours),
            _ => None,
        }),
    decreases offered.len(),
{
    if offered.len() > 0 {
        let front = offered.drop_last();
        lemma_outdated(front, table, name);
        let last = offered.last();
        let rest = outdated(front, table);
        if last.name == name {
            assert(known_as(front, name) is None) by {
                lemma_absent(offered, name);
            }
        }
        match known_as(table, last.name) {
            Some(mine) if mine > last.generation => {
                let added = Tag { name: last.name, generation: mine };
                assert(rest.push(added).drop_last() =~= rest);
                assert(rest.push(added).last() == added);
            },
            _ => {},
        }
    }
}

proof fn lemma_absent(table: Seq<Tag>, name: Seq<u8>)
    requires
        distinct(table),
        table.len() > 0,
        table.last().name == name,
    ensures
        known_as(table.drop_last(), name) is None,
{
    let front = table.drop_last();
    if known_as(front, name) is Some {
        let i = lemma_somewhere(front, name);
        assert(table[i].name == table[table.len() - 1].name);
    }
}

proof fn lemma_somewhere(table: Seq<Tag>, name: Seq<u8>) -> (i: int)
    requires
        known_as(table, name) is Some,
    ensures
        0 <= i < table.len(),
        table[i].name == name,
    decreases table.len(),
{
    if table.last().name == name {
        table.len() - 1
    } else {
        lemma_somewhere(table.drop_last(), name)
    }
}

proof fn lemma_unmentioned(table: Seq<Tag>, offered: Seq<Tag>, name: Seq<u8>)
    requires
        distinct(table),
    ensures
        known_as(unmentioned(table, offered), name) == (match (
            known_as(offered, name),
            known_as(table, name),
        ) {
            (None, Some(ours)) if ours > 0 => Some(ours),
            _ => None,
        }),
    decreases table.len(),
{
    if table.len() > 0 {
        let front = table.drop_last();
        lemma_unmentioned(front, offered, name);
        let last = table.last();
        let rest = unmentioned(front, offered);
        if last.name == name {
            lemma_absent(table, name);
        }
        if last.generation > 0 && known_as(offered, last.name) is None {
            assert(rest.push(last).drop_last() =~= rest);
            assert(rest.push(last).last() == last);
        }
    }
}

/// A full exchange converges: a peer that listed its whole table, and merges
/// what it is told, then holds of every tag exactly the generation that this
/// node holds after merging the peer's table.
pub proof fn a_full_exchange_converges(
    offered: Seq<Tag>,
    table: Seq<Tag>,
    name: Seq<u8>,
    max: nat,
)
    requires
        distinct(offered),
        distinct(table),
        outdated(offered, table).len() + unmentioned(table, offered).len() <= max,
    ensures
        merged(
            generation_of(offered, name),
            generation_of(behind(true, offered, table, max), name),
        ) == merged(generation_of(table, name), generation_of(offered, name)),
{
    lemma_outdated(offered, table, name);
    lemma_unmentioned(table, offered, name);
    lemma_known_append(outdated(offered, table), unmentioned(table, offered), name);
}

/// A partial exchange converges on every tag it named.
pub proof fn a_partial_exchange_converges_on_what_it_named(
    offered: Seq<Tag>,
    table: Seq<Tag>,
    name: Seq<u8>,
    max: nat,
)
    requires
        distinct(offered),
        known_as(offered, name) is Some,
        outdated(offered, table).len() <= max,
    ensures
        merged(
            generation_of(offered, name),
            generation_of(behind(false, offered, table, max), name),
        ) == merged(generation_of(table, name), generation_of(offered, name)),
{
    lemma_outdated(offered, table, name);
}

/// The names that `ours` knows a higher generation of than `theirs`.
pub open spec fn gap(ours: Seq<Tag>, theirs: Seq<Tag>) -> Set<Seq<u8>> {
    Set::new(|name: Seq<u8>| generation_of(ours, name) > generation_of(theirs, name))
}

/// The names that a list mentions.
pub open spec fn mentioned(list: Seq<Tag>) -> Set<Seq<u8>> {
    Set::new(|name: Seq<u8>| known_as(list, name) is Some)
}

/// Whether an answer to an offer does what an exchange is for.
///
/// It holds at most `max` tags, each with the generation that this node knows and
/// the peer does not. A peer that did not list its whole table is told of nothing
/// but what it named. And where the answer has room for all that the peer could be
/// told, a peer that merges it knows of every tag it asked about as much as both
/// nodes did together: of the tags it named, and of every tag there is where it
/// listed its whole table.
pub open spec fn informs(
    full: bool,
    offered: Seq<Tag>,
    table: Seq<Tag>,
    max: nat,
    answer: Seq<Tag>,
) -> bool {
    &&& answer.len() <= max
    &&& distinct(table) ==> forall|i: int|
        0 <= i < answer.len() ==> generation_of(table, (#[trigger] answer[i]).name)
            == answer[i].generation
    &&& distinct(table) && distinct(offered) ==> forall|i: int|
        0 <= i < answer.len() ==> (#[trigger] answer[i]).generation > generation_of(
            offered,
            answer[i].name,
        )
    &&& !full ==> forall|i: int|
        0 <= i < answer.len() ==> mentioned(offered).contains((#[trigger] answer[i]).name)
    &&& full && distinct(offered) && distinct(table) && gap(table, offered).len() <= max
        ==> forall|name: Seq<u8>|
        merged(generation_of(offered, name), #[trigger] generation_of(answer, name)) == merged(
            generation_of(table, name),
            generation_of(offered, name),
        )
    &&& !full && distinct(offered) && distinct(table) && gap(table, offered).intersect(
        mentioned(offered),
    ).len() <= max ==> forall|name: Seq<u8>|
        mentioned(offered).contains(name) ==> merged(
            generation_of(offered, name),
            #[trigger] generation_of(answer, name),
        ) == merged(generation_of(table, name), generation_of(offered, name))
}

proof fn lemma_outdated_entry(offered: Seq<Tag>, table: Seq<Tag>, i: int)
    requires
        0 <= i < outdated(offered, table).len(),
    ensures
        known_as(offered, outdated(offered, table)[i].name) is Some,
        known_as(table, outdated(offered, table)[i].name) == Some(
            outdated(offered, table)[i].generation,
        ),
    decreases offered.len(),
{
    let front = offered.drop_last();
    let rest = outdated(front, table);
    if i < rest.len() {
        lemma_outdated_entry(front, table, i);
    }
}

proof fn lemma_unmentioned_entry(table: Seq<Tag>, offered: Seq<Tag>, i: int)
    requires
        distinct(table),
        0 <= i < unmentioned(table, offered).len(),
    ensures
        known_as(offered, unmentioned(table, offered)[i].name) is None,
        known_as(table, unmentioned(table, offered)[i].name) == Some(
            unmentioned(table, offered)[i].generation,
        ),
        unmentioned(table, offered)[i].generation > 0,
    decreases table.len(),
{
    let front = table.drop_last();
    let rest = unmentioned(front, offered);
    if i < rest.len() {
        lemma_unmentioned_entry(front, offered, i);
        let name = rest[i].name;
        let k = lemma_somewhere(front, name);
        assert(table[k].name == name);
        assert(table[k].name != table[table.len() - 1].name);
    }
}

proof fn lemma_outdated_distinct(offered: Seq<Tag>, table: Seq<Tag>)
    requires
        distinct(offered),
    ensures
        distinct(outdated(offered, table)),
    decreases offered.len(),
{
    if offered.len() > 0 {
        let front = offered.drop_last();
        let rest = outdated(front, table);
        lemma_outdated_distinct(front, table);
        assert forall|i: int| 0 <= i < rest.len() implies (#[trigger] rest[i]).name
            != offered.last().name by {
            lemma_outdated_entry(front, table, i);
            lemma_absent(offered, offered.last().name);
        }
    }
}

proof fn lemma_unmentioned_distinct(table: Seq<Tag>, offered: Seq<Tag>)
    requires
        distinct(table),
    ensures
        distinct(unmentioned(table, offered)),
    decreases table.len(),
{
    if table.len() > 0 {
        let front = table.drop_last();
        let rest = unmentioned(front, offered);
        lemma_unmentioned_distinct(front, offered);
        assert forall|i: int| 0 <= i < rest.len() implies (#[trigger] rest[i]).name
            != table.last().name by {
            lemma_unmentioned_entry(front, offered, i);
            lemma_absent(table, table.last().name);
        }
    }
}

/// The names of a list, in order.
spec fn names_of(list: Seq<Tag>) -> Seq<Seq<u8>> {
    Seq::new(list.len(), |i: int| list[i].name)
}

proof fn lemma_size(list: Seq<Tag>, names: Set<Seq<u8>>)
    requires
        distinct(list),
        forall|name: Seq<u8>| #[trigger] names.contains(name) <==> known_as(list, name) is Some,
    ensures
        names.len() == list.len(),
{
    let all = names_of(list);
    assert(all.no_duplicates());
    all.unique_seq_to_set();
    assert forall|name: Seq<u8>| all.to_set().contains(name) <==> names.contains(name) by {
        if all.contains(name) {
            let i = choose|i: int| 0 <= i < all.len() && all[i] == name;
            lemma_known_in(list, name, i);
        }
        if known_as(list, name) is Some {
            let i = lemma_somewhere(list, name);
            assert(all[i] == name);
        }
    }
    assert(all.to_set() =~= names);
}

/// An answer to a peer's offer does what an exchange is for.
pub proof fn an_answer_informs(
    full: bool,
    offered: Seq<Tag>,
    table: Seq<Tag>,
    max: nat,
)
    ensures
        informs(full, offered, table, max, behind(full, offered, table, max)),
{
    let old = outdated(offered, table);
    let new = unmentioned(table, offered);
    let answer = behind(full, offered, table, max);
    assert forall|i: int| 0 <= i < answer.len() && i < old.len() implies known_as(
        offered,
        (#[trigger] answer[i]).name,
    ) is Some && known_as(table, answer[i].name) == Some(answer[i].generation) by {
        lemma_outdated_entry(offered, table, i);
    }
    if distinct(table) {
        assert forall|i: int| old.len() <= i < answer.len() implies known_as(
            offered,
            (#[trigger] answer[i]).name,
        ) is None && known_as(table, answer[i].name) == Some(answer[i].generation)
            && answer[i].generation > 0 by {
            lemma_unmentioned_entry(table, offered, i - old.len());
        }
    }
    if distinct(table) && distinct(offered) {
        lemma_outdated_distinct(offered, table);
        lemma_unmentioned_distinct(table, offered);
        assert forall|i: int| 0 <= i < answer.len() implies (#[trigger] answer[i]).generation
            > generation_of(offered, answer[i].name) by {
            if i < old.len() {
                lemma_outdated(offered, table, answer[i].name);
                lemma_known_in(old, answer[i].name, i);
            }
        }
        assert forall|name: Seq<u8>| known_as(old, name) is Some <==> #[trigger] gap(
            table,
            offered,
        ).intersect(mentioned(offered)).contains(name) by {
            lemma_outdated(offered, table, name);
        }
        lemma_size(old, gap(table, offered).intersect(mentioned(offered)));
        let both = old + new;
        assert(distinct(both)) by {
            assert forall|i: int, j: int| 0 <= i < j < both.len() implies (#[trigger] both[i]).name
                != (#[trigger] both[j]).name by {
                if i < old.len() && j >= old.len() {
                    lemma_outdated_entry(offered, table, i);
                    lemma_unmentioned_entry(table, offered, j - old.len());
                }
            }
        }
        assert forall|name: Seq<u8>| known_as(both, name) is Some <==> #[trigger] gap(
            table,
            offered,
        ).contains(name) by {
            lemma_outdated(offered, table, name);
            lemma_unmentioned(table, offered, name);
            lemma_known_append(old, new, name);
        }
        lemma_size(both, gap(table, offered));
        if full && gap(table, offered).len() <= max {
            assert forall|name: Seq<u8>|
                merged(generation_of(offered, name), #[trigger] generation_of(answer, name))
                    == merged(generation_of(table, name), generation_of(offered, name)) by {
                a_full_exchange_converges(offered, table, name, max);
            }
        }
        if !full && old.len() <= max {
            assert forall|name: Seq<u8>| mentioned(offered).contains(name) implies merged(
                generation_of(offered, name),
                #[trigger] generation_of(answer, name),
            ) == merged(generation_of(table, name), generation_of(offered, name)) by {
                a_partial_exchange_converges_on_what_it_named(offered, table, name, max);
            }
        }
    }
}

/// Once a node has merged everything a peer offered, the peer is behind on
/// nothing it named: a second exchange of the same offer says nothing new.
pub proof fn a_merged_offer_is_outdated_nowhere(offered: Seq<Tag>, table: Seq<Tag>)
    requires
        forall|i: int|
            0 <= i < offered.len() ==> generation_of(table, (#[trigger] offered[i]).name)
                <= offered[i].generation,
    ensures
        outdated(offered, table).len() == 0,
    decreases offered.len(),
{
    if offered.len() > 0 {
        let front = offered.drop_last();
        assert forall|i: int| 0 <= i < front.len() implies generation_of(
            table,
            (#[trigger] front[i]).name,
        ) <= front[i].generation by {
            assert(front[i] == offered[i]);
        }
        a_merged_offer_is_outdated_nowhere(front, table);
        assert(offered[offered.len() - 1] == offered.last());
        assert(generation_of(table, offered.last().name) <= offered.last().generation);
    }
}

/// Byte order: the order of the first byte that differs, a prefix first.
pub open spec fn name_le(a: Seq<u8>, b: Seq<u8>) -> bool
    decreases a.len(),
{
    if a.len() == 0 {
        true
    } else if b.len() == 0 {
        false
    } else if a[0] != b[0] {
        a[0] < b[0]
    } else {
        name_le(a.skip(1), b.skip(1))
    }
}

proof fn lemma_name_order(a: Seq<u8>, b: Seq<u8>, c: Seq<u8>)
    ensures
        name_le(a, b) || name_le(b, a),
        name_le(a, b) && name_le(b, c) ==> name_le(a, c),
    decreases a.len() + b.len() + c.len(),
{
    if a.len() > 0 && b.len() > 0 {
        if c.len() > 0 {
            lemma_name_order(a.skip(1), b.skip(1), c.skip(1));
        } else {
            lemma_name_order(a.skip(1), b.skip(1), c);
        }
    }
}

fn name_not_after(a: &[u8], b: &[u8]) -> (yes: bool)
    ensures
        yes == name_le(a@, b@),
{
    let mut i: usize = 0;
    assert(a@.skip(0) =~= a@);
    assert(b@.skip(0) =~= b@);
    while i < a.len() && i < b.len()
        invariant
            i <= a@.len(),
            i <= b@.len(),
            name_le(a@, b@) == name_le(a@.skip(i as int), b@.skip(i as int)),
        decreases a@.len() - i,
    {
        if a[i] != b[i] {
            return a[i] < b[i];
        }
        assert(a@.skip(i as int).skip(1) =~= a@.skip(i + 1));
        assert(b@.skip(i as int).skip(1) =~= b@.skip(i + 1));
        i = i + 1;
    }
    i == a.len()
}

/// Whether names ascend.
pub open spec fn ascending(table: Seq<Tag>) -> bool {
    forall|i: int, j: int|
        0 <= i <= j < table.len() ==> name_le((#[trigger] table[i]).name, (
        #[trigger] table[j]).name)
}

spec fn refs(list: Seq<&TagGeneration>) -> Seq<Tag> {
    Seq::new(list.len(), |i: int| list[i]@)
}

fn merge_ordered<'a>(left: &Vec<&'a TagGeneration>, right: &Vec<&'a TagGeneration>) -> (out: Vec<
    &'a TagGeneration,
>)
    requires
        ascending(refs(left@)),
        ascending(refs(right@)),
        left@.len() + right@.len() <= usize::MAX,
    ensures
        ascending(refs(out@)),
        refs(out@).to_multiset() == refs(left@).to_multiset().add(refs(right@).to_multiset()),
{
    broadcast use vstd::seq_lib::group_to_multiset_ensures;

    let ghost l = refs(left@);
    let ghost r = refs(right@);
    let mut out: Vec<&'a TagGeneration> = Vec::new();
    let mut i: usize = 0;
    let mut j: usize = 0;
    assert(l.take(0) =~= Seq::empty());
    assert(r.take(0) =~= Seq::empty());
    assert(refs(out@) =~= Seq::empty());
    assert(refs(out@).to_multiset() =~= l.take(0).to_multiset().add(r.take(0).to_multiset()));
    while i < left.len() || j < right.len()
        invariant
            l == refs(left@),
            r == refs(right@),
            ascending(l),
            ascending(r),
            left@.len() + right@.len() <= usize::MAX,
            i <= left@.len(),
            j <= right@.len(),
            ascending(refs(out@)),
            refs(out@).to_multiset() == l.take(i as int).to_multiset().add(
                r.take(j as int).to_multiset(),
            ),
            forall|k: int, m: int|
                0 <= k < out@.len() && i <= m < l.len() ==> name_le(
                    (#[trigger] refs(out@)[k]).name,
                    (#[trigger] l[m]).name,
                ),
            forall|k: int, m: int|
                0 <= k < out@.len() && j <= m < r.len() ==> name_le(
                    (#[trigger] refs(out@)[k]).name,
                    (#[trigger] r[m]).name,
                ),
        decreases left@.len() - i + right@.len() - j,
    {
        let ghost before = refs(out@);
        let from_left = if i == left.len() {
            false
        } else if j == right.len() {
            true
        } else {
            name_not_after(&left[i].name, &right[j].name)
        };
        if from_left {
            let entry = left[i];
            out.push(entry);
            proof {
                before.to_multiset_ensures();
                l.take(i as int).to_multiset_ensures();
                assert(refs(out@) =~= before.push(entry@));
                assert(l.take(i + 1) =~= l.take(i as int).push(l[i as int]));
                assert(refs(out@).to_multiset() =~= l.take(i + 1).to_multiset().add(
                    r.take(j as int).to_multiset(),
                ));
                assert forall|m: int| j <= m < r.len() implies name_le(
                    entry@.name,
                    (#[trigger] r[m]).name,
                ) by {
                    lemma_name_order(entry@.name, r[j as int].name, r[m].name);
                }
                lemma_name_order(entry@.name, entry@.name, entry@.name);
                assert(entry@ == l[i as int]);
            }
            i = i + 1;
        } else {
            let entry = right[j];
            out.push(entry);
            proof {
                before.to_multiset_ensures();
                r.take(j as int).to_multiset_ensures();
                assert(refs(out@) =~= before.push(entry@));
                assert(r.take(j + 1) =~= r.take(j as int).push(r[j as int]));
                assert(refs(out@).to_multiset() =~= l.take(i as int).to_multiset().add(
                    r.take(j + 1).to_multiset(),
                ));
                assert forall|m: int| i <= m < l.len() implies name_le(
                    entry@.name,
                    (#[trigger] l[m]).name,
                ) by {
                    lemma_name_order(entry@.name, l[i as int].name, l[m].name);
                }
                lemma_name_order(entry@.name, entry@.name, entry@.name);
                assert(entry@ == r[j as int]);
            }
            j = j + 1;
        }
    }
    assert(l.take(i as int) =~= l);
    assert(r.take(j as int) =~= r);
    out
}

fn order_by_name<'a>(list: &Vec<&'a TagGeneration>, from: usize, to: usize) -> (out: Vec<
    &'a TagGeneration,
>)
    requires
        from <= to <= list@.len(),
    ensures
        ascending(refs(out@)),
        refs(out@).to_multiset() == refs(list@).subrange(from as int, to as int).to_multiset(),
        out@.len() == to - from,
    decreases to - from,
{
    let ghost all = refs(list@);
    if to - from <= 1 {
        let mut out: Vec<&'a TagGeneration> = Vec::new();
        if from < to {
            out.push(list[from]);
            proof {
                let n = list[from as int]@.name;
                lemma_name_order(n, n, n);
            }
        }
        assert(refs(out@) =~= all.subrange(from as int, to as int));
        return out;
    }
    let mid: usize = from + (to - from) / 2;
    let left = order_by_name(list, from, mid);
    let right = order_by_name(list, mid, to);
    let out = merge_ordered(&left, &right);
    proof {
        let a = all.subrange(from as int, mid as int);
        let b = all.subrange(mid as int, to as int);
        vstd::seq_lib::lemma_multiset_commutative(a, b);
        assert(a + b =~= all.subrange(from as int, to as int));
        let whole = all.subrange(from as int, to as int);
        whole.to_multiset_ensures();
        refs(out@).to_multiset_ensures();
    }
    out
}

/// The tags of a table that were ever invalidated.
pub open spec fn invalidated(table: Seq<Tag>) -> Seq<Tag>
    decreases table.len(),
{
    if table.len() == 0 {
        Seq::empty()
    } else if table.last().generation > 0 {
        invalidated(table.drop_last()).push(table.last())
    } else {
        invalidated(table.drop_last())
    }
}

/// Where the window of a round starts.
pub open spec fn window_start(round: nat, max: nat, len: nat) -> nat {
    ((round * max) % len) as nat
}

/// The `max` entries of a round, wrapping round the end.
pub open spec fn window(order: Seq<Tag>, round: nat, max: nat) -> Seq<Tag> {
    Seq::new(
        max,
        |i: int| order[(window_start(round, max, order.len()) + i) % order.len() as int],
    )
}

/// Whether a digest is one that a node may offer in a round: everything that
/// was ever invalidated, where that fits in one message, and otherwise a window
/// on it in name order that advances with every round.
pub open spec fn digest_of(
    table: Seq<Tag>,
    round: nat,
    max: nat,
    full: bool,
    digest: Seq<Tag>,
) -> bool {
    let all = invalidated(table);
    if all.len() <= max {
        full && digest == all
    } else {
        !full && exists|order: Seq<Tag>|
            ascending(order) && order.to_multiset() == all.to_multiset() && order.len()
                == all.len() && digest == #[trigger] window(order, round, max)
    }
}

/// Builds the digest offered to a peer.
///
/// Only tags with a non-zero generation: one that has never been invalidated
/// anywhere says nothing. The answer says whether the whole table is in it,
/// which is what licenses the peer to answer with entries this node never
/// mentioned.
pub fn build_digest(known: &Vec<TagGeneration>, round: usize, max: usize) -> (digest: (
    bool,
    Vec<TagGeneration>,
))
    ensures
        digest_of(views(known@), round as nat, max as nat, digest.0, views(digest.1@)),
{
    let ghost table = views(known@);
    let mut all: Vec<&TagGeneration> = Vec::new();
    let mut i: usize = 0;
    assert(refs(all@) =~= invalidated(table.take(0)));
    while i < known.len()
        invariant
            table == views(known@),
            i <= known@.len(),
            refs(all@) == invalidated(table.take(i as int)),
        decreases known@.len() - i,
    {
        assert(table.take(i + 1).drop_last() =~= table.take(i as int));
        assert(table.take(i + 1).last() == table[i as int]);
        let ghost before = all@;
        if known[i].generation > 0 {
            all.push(&known[i]);
            assert(refs(all@) =~= refs(before).push(known@[i as int]@));
        }
        i = i + 1;
    }
    assert(table.take(i as int) =~= table);
    if all.len() <= max {
        let entries = copy_refs(&all, 0, all.len());
        assert(views(entries@) =~= invalidated(table));
        return (true, entries);
    }
    let order = order_by_name(&all, 0, all.len());
    assert(refs(all@).subrange(0, all@.len() as int) =~= refs(all@));
    let len: usize = order.len();
    proof {
        assert(0 <= round * max <= 0xffff_ffff_ffff_ffff * 0xffff_ffff_ffff_ffff)
            by (nonlinear_arith)
            requires
                0 <= round <= 0xffff_ffff_ffff_ffff,
                0 <= max <= 0xffff_ffff_ffff_ffff,
        ;
    }
    let start: usize = ((round as u128 * max as u128) % len as u128) as usize;
    proof {
        vstd::arithmetic::div_mod::lemma_small_mod(start as nat, len as nat);
    }
    assert(start == window_start(round as nat, max as nat, len as nat));
    let mut entries: Vec<TagGeneration> = Vec::new();
    let mut k: usize = 0;
    let mut at: usize = start;
    let ghost target = window(refs(order@), round as nat, max as nat);
    while k < max
        invariant
            len == order@.len(),
            max < len,
            k <= max,
            at < len,
            start < len,
            at == (start + k) % len as int,
            start == window_start(round as nat, max as nat, len as nat),
            target == window(refs(order@), round as nat, max as nat),
            views(entries@) == target.take(k as int),
        decreases max - k,
    {
        let ghost before = entries@;
        let copy = copy_tag(order[at]);
        entries.push(copy);
        assert(views(entries@) =~= views(before).push(copy@));
        assert(target[k as int] == refs(order@)[at as int]);
        assert(views(entries@) =~= target.take(k + 1));
        k = k + 1;
        at = if at + 1 == len {
            0
        } else {
            at + 1
        };
        proof {
            lemma_step(start as int, k as int, len as int);
        }
    }
    assert(target.take(k as int) =~= target);
    assert(ascending(refs(order@)));
    (false, entries)
}

proof fn lemma_step(start: int, k: int, len: int)
    requires
        0 < len,
        0 <= start,
        1 <= k,
    ensures
        (start + k) % len == (if (start + k - 1) % len + 1 == len {
            0
        } else {
            (start + k - 1) % len + 1
        }),
{
    let a = start + k - 1;
    let q = a / len;
    let r = a % len;
    vstd::arithmetic::div_mod::lemma_fundamental_div_mod(a, len);
    vstd::arithmetic::div_mod::lemma_mod_bound(a, len);
    if r + 1 == len {
        assert(a + 1 == len * (q + 1)) by (nonlinear_arith)
            requires
                a == len * q + r,
                r + 1 == len,
        ;
        vstd::arithmetic::div_mod::lemma_mod_multiples_basic(q + 1, len);
        assert(len * (q + 1) == (q + 1) * len) by (nonlinear_arith);
    } else {
        vstd::arithmetic::div_mod::lemma_fundamental_div_mod_converse(a + 1, len, q, r + 1);
    }
}

fn copy_refs(list: &Vec<&TagGeneration>, from: usize, to: usize) -> (out: Vec<TagGeneration>)
    requires
        from <= to <= list@.len(),
    ensures
        views(out@) == refs(list@).subrange(from as int, to as int),
{
    let mut out: Vec<TagGeneration> = Vec::new();
    let mut i: usize = from;
    while i < to
        invariant
            from <= i <= to <= list@.len(),
            views(out@) == refs(list@).subrange(from as int, i as int),
        decreases to - i,
    {
        let ghost before = out@;
        let copy = copy_tag(list[i]);
        out.push(copy);
        assert(views(out@) =~= views(before).push(copy@));
        assert(refs(list@)[i as int] == copy@);
        i = i + 1;
        assert(views(out@) =~= refs(list@).subrange(from as int, i as int));
    }
    out
}

/// How many windows of `max` entries it takes to hold `len` of them.
pub open spec fn lap(len: nat, max: nat) -> nat {
    if len == 0 {
        0
    } else {
        ((len - 1) / max as int + 1) as nat
    }
}

/// Every entry is eventually offered: wherever one starts, the entry is in the
/// window of one of the next rounds, of which there are no more than it takes to
/// hold every entry once.
pub proof fn every_entry_is_eventually_offered(order: Seq<Tag>, first: nat, max: nat, i: int)
    requires
        0 < max < order.len(),
        0 <= i < order.len(),
    ensures
        exists|round: nat|
            first <= round < first + lap(order.len(), max) && (#[trigger] window(
                order,
                round,
                max,
            )).contains(order[i]),
{
    let len = order.len() as int;
    let m = max as int;
    let base = first * m;
    let d = (i - base) % len;
    vstd::arithmetic::div_mod::lemma_mod_bound(i - base, len);
    let q = d / m;
    let k = d % m;
    vstd::arithmetic::div_mod::lemma_fundamental_div_mod(d, m);
    vstd::arithmetic::div_mod::lemma_mod_bound(d, m);
    vstd::arithmetic::div_mod::lemma_div_pos_is_pos(d, m);
    vstd::arithmetic::div_mod::lemma_div_is_ordered(d, len - 1, m);
    let round = (first + q) as nat;
    let start = window_start(round, max, len as nat) as int;
    assert(round * m + k == base + d) by (nonlinear_arith)
        requires
            round == first + q,
            base == first * m,
            d == m * q + k,
    ;
    assert(0 <= round * m) by (nonlinear_arith)
        requires
            0 <= round,
            0 < m,
    ;
    vstd::arithmetic::div_mod::lemma_add_mod_noop_right(k, round * m, len);
    vstd::arithmetic::div_mod::lemma_add_mod_noop_right(base, i - base, len);
    vstd::arithmetic::div_mod::lemma_small_mod(i as nat, len as nat);
    assert((start + k) % len == i);
    assert(window(order, round, max)[k] == order[i]);
}

proof fn lemma_invalidated_is_known(table: Seq<Tag>, tag: Tag)
    requires
        invalidated(table).contains(tag),
    ensures
        table.contains(tag),
    decreases table.len(),
{
    if table.len() > 0 {
        let front = table.drop_last();
        let j = choose|j: int|
            0 <= j < invalidated(table).len() && invalidated(table)[j] == tag;
        if table.last().generation > 0 && j == invalidated(front).len() {
            assert(table[table.len() - 1] == tag);
        } else {
            assert(invalidated(front)[j] == tag);
            lemma_invalidated_is_known(front, tag);
            let n = choose|n: int| 0 <= n < front.len() && front[n] == tag;
            assert(table[n] == tag);
        }
    }
}

/// The order of tags by name, and by generation where the names are one.
spec fn tag_le(a: Tag, b: Tag) -> bool {
    name_le(a.name, b.name) && (a.name == b.name ==> a.generation <= b.generation)
}

proof fn lemma_name_antisymmetric(a: Seq<u8>, b: Seq<u8>)
    requires
        name_le(a, b),
        name_le(b, a),
    ensures
        a == b,
    decreases a.len(),
{
    if a.len() > 0 {
        lemma_name_antisymmetric(a.skip(1), b.skip(1));
        assert(a =~= seq![a[0]] + a.skip(1));
        assert(b =~= seq![b[0]] + b.skip(1));
    } else {
        assert(a =~= b);
    }
}

proof fn lemma_tag_order()
    ensures
        vstd::relations::total_ordering(|a: Tag, b: Tag| tag_le(a, b)),
{
    let le = |a: Tag, b: Tag| tag_le(a, b);
    assert forall|x: Tag| #[trigger] le(x, x) by {
        lemma_name_order(x.name, x.name, x.name);
    }
    assert forall|x: Tag, y: Tag| #[trigger] le(x, y) && #[trigger] le(y, x) implies x == y by {
        lemma_name_antisymmetric(x.name, y.name);
    }
    assert forall|x: Tag, y: Tag, z: Tag| #[trigger] le(x, y) && #[trigger] le(y, z) implies le(
        x,
        z,
    ) by {
        lemma_name_order(x.name, y.name, z.name);
        if x.name == z.name {
            lemma_name_antisymmetric(x.name, y.name);
        }
    }
    assert forall|x: Tag, y: Tag| #[trigger] le(x, y) || #[trigger] le(y, x) by {
        lemma_name_order(x.name, y.name, x.name);
        if x.name != y.name && name_le(x.name, y.name) && name_le(y.name, x.name) {
            lemma_name_antisymmetric(x.name, y.name);
        }
    }
}

/// Whether an order is one that the tags of a table may be offered in.
spec fn orders(order: Seq<Tag>, table: Seq<Tag>) -> bool {
    ascending(order) && order.to_multiset() == invalidated(table).to_multiset() && order.len()
        == invalidated(table).len()
}

proof fn lemma_ordered(order: Seq<Tag>, table: Seq<Tag>)
    requires
        distinct(table),
        orders(order, table),
    ensures
        vstd::relations::sorted_by(order, |a: Tag, b: Tag| tag_le(a, b)),
        forall|tag: Tag| invalidated(table).contains(tag) <==> #[trigger] order.contains(tag),
{
    let all = invalidated(table);
    order.to_multiset_ensures();
    all.to_multiset_ensures();
    assert forall|tag: Tag| all.contains(tag) <==> #[trigger] order.contains(tag) by {
        assert(order.contains(tag) <==> order.to_multiset().count(tag) > 0);
        assert(all.contains(tag) <==> all.to_multiset().count(tag) > 0);
    }
    let le = |a: Tag, b: Tag| tag_le(a, b);
    assert forall|i: int, j: int| 0 <= i < j < order.len() implies #[trigger] le(
        order[i],
        order[j],
    ) by {
        let (a, b) = (order[i], order[j]);
        assert(order.contains(a) && order.contains(b));
        lemma_invalidated_is_known(table, a);
        lemma_invalidated_is_known(table, b);
        if a.name == b.name {
            let m = choose|m: int| 0 <= m < table.len() && table[m] == a;
            let n = choose|n: int| 0 <= n < table.len() && table[n] == b;
            assert(m == n);
        }
    }
}

/// A node offers its peers everything: among the digests of as many consecutive
/// rounds as it takes to hold what was ever invalidated once, each such tag is in
/// at least one.
pub proof fn a_lap_of_digests_offers_every_tag(
    table: Seq<Tag>,
    first: nat,
    max: nat,
    digests: Seq<(bool, Seq<Tag>)>,
    tag: Tag,
)
    requires
        0 < max,
        distinct(table),
        invalidated(table).contains(tag),
        digests.len() == lap(invalidated(table).len(), max),
        forall|k: int|
            0 <= k < digests.len() ==> digest_of(
                table,
                (first + k) as nat,
                max,
                (#[trigger] digests[k]).0,
                digests[k].1,
            ),
    ensures
        exists|k: int| 0 <= k < digests.len() && (#[trigger] digests[k]).1.contains(tag),
{
    let all = invalidated(table);
    vstd::arithmetic::div_mod::lemma_div_pos_is_pos(all.len() - 1, max as int);
    assert(digests.len() > 0);
    if all.len() <= max {
        assert(digests[0].1.contains(tag));
    } else {
        assert(digest_of(table, first, max, digests[0].0, digests[0].1));
        let order = choose|order: Seq<Tag>|
            ascending(order) && order.to_multiset() == all.to_multiset() && order.len()
                == all.len() && digests[0].1 == #[trigger] window(order, first, max);
        assert(orders(order, table));
        lemma_ordered(order, table);
        assert(order.contains(tag));
        let i = choose|i: int| 0 <= i < order.len() && order[i] == tag;
        every_entry_is_eventually_offered(order, first, max, i);
        let round = choose|round: nat|
            first <= round < first + lap(order.len(), max) && (#[trigger] window(
                order,
                round,
                max,
            )).contains(order[i]);
        let k = round - first;
        let (full, digest) = digests[k];
        assert(digest_of(table, round, max, full, digest));
        let other = choose|other: Seq<Tag>|
            ascending(other) && other.to_multiset() == all.to_multiset() && other.len()
                == all.len() && digest == #[trigger] window(other, round, max);
        assert(orders(other, table));
        lemma_ordered(other, table);
        lemma_tag_order();
        vstd::seq_lib::lemma_sorted_unique(order, other, |a: Tag, b: Tag| tag_le(a, b));
        assert(digests[k].1.contains(tag));
    }
}

proof fn lemma_invalidated(table: Seq<Tag>, name: Seq<u8>)
    requires
        distinct(table),
    ensures
        known_as(invalidated(table), name) == (match known_as(table, name) {
            Some(generation) if generation > 0 => Some(generation),
            _ => None,
        }),
        invalidated(table).len() <= table.len(),
    decreases table.len(),
{
    if table.len() > 0 {
        let front = table.drop_last();
        let last = table.last();
        let rest = invalidated(front);
        lemma_invalidated(front, name);
        if last.name == name {
            lemma_absent(table, name);
        }
        if last.generation > 0 {
            assert(rest.push(last).drop_last() =~= rest);
            assert(rest.push(last).last() == last);
        }
    }
}

proof fn lemma_invalidated_distinct(table: Seq<Tag>)
    requires
        distinct(table),
    ensures
        distinct(invalidated(table)),
        forall|i: int|
            0 <= i < invalidated(table).len() ==> (#[trigger] invalidated(table)[i]).generation > 0,
    decreases table.len(),
{
    if table.len() > 0 {
        let front = table.drop_last();
        let rest = invalidated(front);
        lemma_invalidated_distinct(front);
        assert forall|i: int| 0 <= i < rest.len() implies (#[trigger] rest[i]).name
            != table.last().name by {
            lemma_invalidated_is_known(front, rest[i]);
            let n = choose|n: int| 0 <= n < front.len() && front[n] == rest[i];
            assert(table[n].name != table[table.len() - 1].name);
        }
    }
}

/// The names that were ever invalidated.
pub open spec fn ever_invalidated(table: Seq<Tag>) -> Set<Seq<u8>> {
    Set::new(|name: Seq<u8>| generation_of(table, name) > 0)
}

/// A digest tells the truth, and no more than fits: every entry is a tag that was
/// invalidated, with the generation that the table knows. It claims to be the whole
/// table exactly where everything that was ever invalidated fits, and then nothing
/// is missing from it.
pub proof fn a_digest_tells_the_truth(
    table: Seq<Tag>,
    round: nat,
    max: nat,
    full: bool,
    digest: Seq<Tag>,
)
    requires
        distinct(table),
        digest_of(table, round, max, full, digest),
    ensures
        digest.len() <= max,
        forall|i: int|
            0 <= i < digest.len() ==> (#[trigger] digest[i]).generation > 0 && generation_of(
                table,
                digest[i].name,
            ) == digest[i].generation,
        full <==> ever_invalidated(table).len() <= max,
        full ==> distinct(digest) && forall|name: Seq<u8>|
            #[trigger] generation_of(digest, name) == generation_of(table, name),
{
    let all = invalidated(table);
    lemma_invalidated_distinct(table);
    assert forall|name: Seq<u8>| #[trigger] ever_invalidated(table).contains(name) <==> known_as(
        all,
        name,
    ) is Some by {
        lemma_invalidated(table, name);
    }
    lemma_size(all, ever_invalidated(table));
    if full {
        assert forall|name: Seq<u8>| #[trigger] generation_of(digest, name) == generation_of(
            table,
            name,
        ) by {
            lemma_invalidated(table, name);
        }
    }
    assert forall|i: int| 0 <= i < digest.len() implies (#[trigger] digest[i]).generation > 0
        && generation_of(table, digest[i].name) == digest[i].generation by {
        let tag = digest[i];
        if !full {
            let order = choose|order: Seq<Tag>|
                ascending(order) && order.to_multiset() == all.to_multiset() && order.len()
                    == all.len() && digest == #[trigger] window(order, round, max);
            assert(orders(order, table));
            lemma_ordered(order, table);
            let at = (window_start(round, max, order.len()) + i) % order.len() as int;
            assert(digest[i] == order[at]);
            assert(order.contains(tag));
            broadcast use vstd::seq_lib::group_to_multiset_ensures;

            assert(all.contains(tag));
        }
        assert(all.contains(tag));
        let k = choose|k: int| 0 <= k < all.len() && all[k] == tag;
        lemma_invalidated_is_known(table, tag);
        let n = choose|n: int| 0 <= n < table.len() && table[n] == tag;
        lemma_known_in(table, tag.name, n);
    }
}

/// One round of gossip brings two nodes together: where the one's digest is its whole
/// table and the other's answer has room, the one that merges the answer and the
/// other that merges the digest know the same generation of every tag.
pub proof fn a_round_of_gossip_converges(
    mine: Seq<Tag>,
    theirs: Seq<Tag>,
    round: nat,
    max: nat,
    max_sync: nat,
    digest: Seq<Tag>,
    name: Seq<u8>,
)
    requires
        distinct(mine),
        distinct(theirs),
        digest_of(mine, round, max, true, digest),
        gap(theirs, mine).len() <= max_sync,
    ensures
        merged(
            generation_of(mine, name),
            generation_of(behind(true, digest, theirs, max_sync), name),
        ) == merged(generation_of(theirs, name), generation_of(digest, name)),
        merged(generation_of(theirs, name), generation_of(digest, name)) == merged(
            generation_of(mine, name),
            generation_of(theirs, name),
        ),
{
    a_digest_tells_the_truth(mine, round, max, true, digest);
    assert(gap(theirs, digest) =~= gap(theirs, mine)) by {
        assert forall|n: Seq<u8>| gap(theirs, digest).contains(n) <==> gap(theirs, mine).contains(
            n,
        ) by {
            assert(generation_of(digest, n) == generation_of(mine, n));
        }
    }
    assert(generation_of(digest, name) == generation_of(mine, name));
    an_answer_informs(true, digest, theirs, max_sync);
}

} // verus!
