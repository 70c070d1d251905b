//! The token table behind Redis `SCAN`.
//!
//! A Redis cursor has to reach the client as a `u64`, while a position in the
//! store is `shard ‖ key` and does not fit in eight bytes. So the client holds
//! an integer and the server holds the bytes.
use std::collections::VecDeque;
use vstd::prelude::*;

verus! {

/// The cursor a client sends to start an iteration, and gets back to end one.
///
/// Reserved, never issued, so "begin" and "resume" cannot collide.
pub const START: u64 = 0;

/// One position, and the token standing in for it.
#[derive(Debug)]
pub struct Entry {
    token: u64,
    cursor: Vec<u8>,
    issued: u128,
}

/// What an entry holds.
#[verifier::ext_equal]
pub struct Position {
    pub token: u64,
    pub cursor: Seq<u8>,
    pub issued: u128,
}

impl View for Entry {
    type V = Position;

    closed spec fn view(&self) -> Position {
        Position { token: self.token, cursor: self.cursor@, issued: self.issued }
    }
}

/// Live `SCAN` positions, keyed by the token handed to the client.
///
/// Kept in issue order, which, because tokens come from a monotonic counter, is
/// also token order. Lookup binary-searches it and eviction pops the front.
///
/// Times are nanoseconds on any clock that does not go backwards.
#[derive(Debug)]
pub struct ScanCursors {
    live: VecDeque<Entry>,
    next: u64,
    capacity: usize,
    ttl: u128,
}

/// What the table holds: the live positions from oldest to newest, the token
/// the next issue hands out, and its two bounds.
#[verifier::ext_equal]
pub struct ScanTable {
    pub live: Seq<Position>,
    pub next: u64,
    pub capacity: usize,
    pub ttl: u128,
}

/// Time passed since `issued`, zero if the clock reads earlier than that.
pub open spec fn elapsed(issued: u128, now: u128) -> int {
    if now >= issued {
        now - issued
    } else {
        0
    }
}

/// Whether a position has outlived `ttl` at `now`.
pub open spec fn expired(p: Position, now: u128, ttl: u128) -> bool {
    elapsed(p.issued, now) >= ttl
}

/// The newest `capacity` positions.
pub open spec fn newest(live: Seq<Position>, capacity: usize) -> Seq<Position> {
    if live.len() > capacity {
        live.skip(live.len() - capacity)
    } else {
        live
    }
}

/// The positions left once the leading run of expired ones is dropped.
pub open spec fn swept(live: Seq<Position>, now: u128, ttl: u128) -> Seq<Position>
    decreases live.len(),
{
    if live.len() > 0 && expired(live[0], now, ttl) {
        swept(live.skip(1), now, ttl)
    } else {
        live
    }
}

impl ScanTable {
    /// Tokens ascend strictly, all lie between `START` and the next token, and
    /// the table is within its capacity.
    pub open spec fn wf(self) -> bool {
        &&& START < self.next
        &&& self.live.len() <= self.capacity
        &&& forall|i: int|
            0 <= i < self.live.len() ==> START < (#[trigger] self.live[i]).token < self.next
        &&& forall|i: int, j: int|
            0 <= i < j < self.live.len() ==> (#[trigger] self.live[i]).token < (
            #[trigger] self.live[j]).token
    }

    /// Whether `token` names the position at index `i`.
    pub open spec fn names(self, token: u64, i: int) -> bool {
        0 <= i < self.live.len() && self.live[i].token == token
    }

    /// The position bytes that `token` resolves to at time `now`.
    pub open spec fn resolution(self, token: u64, now: u128) -> Option<Seq<u8>> {
        if exists|i: int| self.names(token, i) && !expired(self.live[i], now, self.ttl) {
            let i = choose|i: int| self.names(token, i) && !expired(self.live[i], now, self.ttl);
            Some(self.live[i].cursor)
        } else {
            None
        }
    }

    /// The table after `cursor` was recorded at time `now`.
    pub open spec fn after_issue(self, cursor: Seq<u8>, now: u128) -> ScanTable {
        let added = self.live.push(Position { token: self.next, cursor, issued: now });
        ScanTable {
            live: swept(newest(added, self.capacity), now, self.ttl),
            next: (self.next + 1) as u64,
            ..self
        }
    }
}

proof fn lemma_swept_is_suffix(live: Seq<Position>, now: u128, ttl: u128)
    ensures
        exists|k: int|
            0 <= k <= live.len() && swept(live, now, ttl) == #[trigger] live.skip(k) && (forall|
                i: int,
            |
                0 <= i < k ==> expired(#[trigger] live[i], now, ttl)) && (k < live.len()
                ==> !expired(live[k], now, ttl)),
    decreases live.len(),
{
    if live.len() > 0 && expired(live[0], now, ttl) {
        lemma_swept_is_suffix(live.skip(1), now, ttl);
        let k = choose|k: int|
            0 <= k <= live.skip(1).len() && swept(live.skip(1), now, ttl)
                == #[trigger] live.skip(1).skip(k) && (forall|i: int|
                0 <= i < k ==> expired(#[trigger] live.skip(1)[i], now, ttl)) && (k < live.skip(
                1,
            ).len() ==> !expired(live.skip(1)[k], now, ttl));
        assert(live.skip(1).skip(k) =~= live.skip(k + 1));
        assert forall|i: int| 0 <= i < k + 1 implies expired(#[trigger] live[i], now, ttl) by {
            if i > 0 {
                assert(live[i] == live.skip(1)[i - 1]);
            }
        }
        assert(0 <= k + 1 <= live.len());
    } else {
        assert(live.skip(0) =~= live);
    }
}

/// How many of the oldest positions an issue drops: some `k` such that what
/// stays is everything from index `k` on, and every dropped position was either
/// past the capacity or expired.
pub proof fn issue_drops_a_prefix(t: ScanTable, cursor: Seq<u8>, now: u128)
    requires
        t.wf(),
        t.next < u64::MAX,
    ensures
        ({
            let added = t.live.push(Position { token: t.next, cursor, issued: now });
            exists|k: int|
                0 <= k <= added.len() && t.after_issue(cursor, now).live == #[trigger] added.skip(k)
                    && (forall|i: int|
                    0 <= i < k ==> i < added.len() - t.capacity || expired(
                        #[trigger] added[i],
                        now,
                        t.ttl,
                    )) && (k < added.len() ==> !expired(added[k], now, t.ttl)) && k >= added.len()
                    - t.capacity
        }),
{
    let added = t.live.push(Position { token: t.next, cursor, issued: now });
    let kept = newest(added, t.capacity);
    let d: int = if added.len() > t.capacity { added.len() - t.capacity } else { 0 };
    assert(kept =~= added.skip(d));
    lemma_swept_is_suffix(kept, now, t.ttl);
    let k = choose|k: int|
        0 <= k <= kept.len() && swept(kept, now, t.ttl) == #[trigger] kept.skip(k) && (forall|
            i: int,
        |
            0 <= i < k ==> expired(#[trigger] kept[i], now, t.ttl)) && (k < kept.len()
            ==> !expired(kept[k], now, t.ttl));
    assert(kept.skip(k) =~= added.skip(d + k));
    assert forall|i: int| 0 <= i < d + k implies i < added.len() - t.capacity || expired(
        #[trigger] added[i],
        now,
        t.ttl,
    ) by {
        if i >= d {
            assert(added[i] == kept[i - d]);
        }
    }
    assert(0 <= d + k <= added.len());
}

/// Issuing keeps the table well formed.
pub proof fn issue_keeps_wf(t: ScanTable, cursor: Seq<u8>, now: u128)
    requires
        t.wf(),
        t.next < u64::MAX,
    ensures
        t.after_issue(cursor, now).wf(),
{
    issue_drops_a_prefix(t, cursor, now);
}

/// A position round-trips through its token: right after the issue and until
/// its time is up, the token resolves to exactly the bytes that were recorded.
/// From then on it resolves to nothing, whether or not anything swept it.
pub proof fn issued_token_resolves_until_it_expires(
    t: ScanTable,
    cursor: Seq<u8>,
    now: u128,
    later: u128,
)
    requires
        t.wf(),
        t.next < u64::MAX,
        t.capacity > 0,
        now <= later,
    ensures
        t.after_issue(cursor, now).resolution(t.next, later) == (if later - now < t.ttl {
            Some(cursor)
        } else {
            None
        }),
{
    let after = t.after_issue(cursor, now);
    let added = t.live.push(Position { token: t.next, cursor, issued: now });
    issue_drops_a_prefix(t, cursor, now);
    issue_keeps_wf(t, cursor, now);
    let k = choose|k: int|
        0 <= k <= added.len() && after.live == #[trigger] added.skip(k) && (forall|i: int|
            0 <= i < k ==> i < added.len() - t.capacity || expired(#[trigger] added[i], now, t.ttl))
            && (k < added.len() ==> !expired(added[k], now, t.ttl)) && k >= added.len()
            - t.capacity;
    if later - now < t.ttl {
        assert(!expired(added[added.len() - 1], now, t.ttl));
        assert(k < added.len());
        let last = after.live.len() - 1;
        assert(after.live[last] == added[added.len() - 1]);
        assert(after.names(t.next, last));
        assert(!expired(after.live[last], later, t.ttl));
        assert forall|i: int| after.names(t.next, i) implies i == last by {}
    } else {
        assert forall|i: int| after.names(t.next, i) implies expired(
            after.live[i],
            later,
            t.ttl,
        ) by {
            assert(after.live[i] == added[i + k]);
            if i + k < added.len() - 1 {
                assert(t.live[i + k].token < t.next);
            }
        }
    }
}

/// Other clients' traffic never evicts a token that is among the newest
/// `capacity` and has not expired: it resolves after the issue as before it.
pub proof fn a_live_token_survives_an_issue(
    t: ScanTable,
    i: int,
    cursor: Seq<u8>,
    now: u128,
)
    requires
        t.wf(),
        t.next < u64::MAX,
        0 <= i < t.live.len(),
        t.live.len() - i < t.capacity,
        !expired(t.live[i], now, t.ttl),
    ensures
        t.after_issue(cursor, now).resolution(t.live[i].token, now) == Some(t.live[i].cursor),
        t.resolution(t.live[i].token, now) == Some(t.live[i].cursor),
{
    let after = t.after_issue(cursor, now);
    let token = t.live[i].token;
    let added = t.live.push(Position { token: t.next, cursor, issued: now });
    issue_drops_a_prefix(t, cursor, now);
    issue_keeps_wf(t, cursor, now);
    let k = choose|k: int|
        0 <= k <= added.len() && after.live == #[trigger] added.skip(k) && (forall|j: int|
            0 <= j < k ==> j < added.len() - t.capacity || expired(#[trigger] added[j], now, t.ttl))
            && (k < added.len() ==> !expired(added[k], now, t.ttl)) && k >= added.len()
            - t.capacity;
    assert(added[i] == t.live[i]);
    assert(k <= i);
    assert(after.live[i - k] == added[i]);
    assert(after.names(token, i - k));
    assert forall|j: int| after.names(token, j) implies j == i - k by {}
    assert(t.names(token, i));
    assert forall|j: int| t.names(token, j) implies j == i by {}
}

/// The start sentinel names no position, in any table.
pub proof fn start_resolves_to_nothing(t: ScanTable, now: u128)
    requires
        t.wf(),
    ensures
        t.resolution(START, now) is None,
{
}

impl View for ScanCursors {
    type V = ScanTable;

    closed spec fn view(&self) -> ScanTable {
        ScanTable {
            live: Seq::new(self.live@.len(), |i: int| self.live@[i]@),
            next: self.next,
            capacity: self.capacity,
            ttl: self.ttl,
        }
    }
}

impl ScanCursors {
    /// An empty table. Tokens begin past `START`.
    pub fn new(capacity: usize, ttl_nanos: u128) -> (table: Self)
        ensures
            table@.wf(),
            table@ == (ScanTable {
                live: Seq::empty(),
                next: 1,
                capacity,
                ttl: ttl_nanos,
            }),
    {
        let table = Self { live: VecDeque::new(), next: 1, capacity, ttl: ttl_nanos };
        assert(table@.live =~= Seq::empty());
        table
    }

    /// Whether a token is left to hand out.
    pub fn can_issue(&self) -> (yes: bool)
        ensures
            yes == (self@.next < u64::MAX),
    {
        self.next < u64::MAX
    }

    /// Records a position and returns the token that names it.
    ///
    /// The only operation that can grow the table, and therefore the only one
    /// that sweeps it.
    pub fn issue(&mut self, cursor: &[u8], now: u128) -> (token: u64)
        requires
            old(self)@.wf(),
            old(self)@.next < u64::MAX,
        ensures
            final(self)@.wf(),
            token == old(self)@.next,
            token != START,
            final(self)@ == old(self)@.after_issue(cursor@, now),
    {
        let ghost before = self@;
        proof {
            issue_keeps_wf(before, cursor@, now);
        }
        let token: u64 = self.next;
        self.next = token + 1;
        let entry = Entry { token, cursor: vstd::slice::slice_to_vec(cursor), issued: now };
        assert(entry@ == Position { token, cursor: cursor@, issued: now });
        self.live.push_back(entry);
        let ghost added = before.live.push(entry@);
        assert(self@.live =~= added);
        while self.live.len() > self.capacity
            invariant
                self.next == token + 1,
                self.capacity == before.capacity,
                self.ttl == before.ttl,
                added.len() >= self.live@.len() >= newest(added, before.capacity).len(),
                self@.live == added.skip(added.len() - self.live@.len()),
            decreases self.live@.len(),
        {
            let ghost prior = self@.live;
            let ghost d = added.len() - self.live@.len();
            let _ = self.live.pop_front();
            assert(self@.live =~= prior.skip(1));
            assert(added.skip(d).skip(1) =~= added.skip(d + 1));
        }
        let ghost kept = newest(added, before.capacity);
        assert(self@.live =~= kept);
        while self.live.len() > 0 && Self::stale(&self.live[0], now, self.ttl)
            invariant
                self.next == token + 1,
                self.capacity == before.capacity,
                self.ttl == before.ttl,
                swept(self@.live, now, before.ttl) == swept(kept, now, before.ttl),
            decreases self.live@.len(),
        {
            let ghost prior = self@.live;
            let _ = self.live.pop_front();
            assert(self@.live =~= prior.skip(1));
        }
        assert(self@.live == swept(kept, now, before.ttl));
        token
    }

    fn stale(entry: &Entry, now: u128, ttl: u128) -> (yes: bool)
        ensures
            yes == expired(entry@, now, ttl),
    {
        let age: u128 = if now >= entry.issued { now - entry.issued } else { 0 };
        age >= ttl
    }

    /// The position a token names, or `None` if it has expired or never existed.
    ///
    /// The time bound is enforced here, not only by the sweep in `issue`: how
    /// long a cursor stays resumable does not depend on other traffic. Looking a
    /// token up does not consume it.
    pub fn resolve(&self, token: u64, now: u128) -> (found: Option<Vec<u8>>)
        requires
            self@.wf(),
        ensures
            found is Some <==> self@.resolution(token, now) is Some,
            found is Some ==> found->0@ == self@.resolution(token, now)->0,
    {
        let mut low: usize = 0;
        let mut high: usize = self.live.len();
        while low < high
            invariant
                self@.wf(),
                low <= high <= self.live@.len(),
                self@.live.len() == self.live@.len(),
                forall|i: int| 0 <= i < low ==> (#[trigger] self@.live[i]).token < token,
                forall|i: int|
                    high <= i < self.live@.len() ==> (#[trigger] self@.live[i]).token > token,
            decreases high - low,
        {
            let mid: usize = low + (high - low) / 2;
            let entry = &self.live[mid];
            assert(entry@ == self@.live[mid as int]);
            if entry.token == token {
                assert(self@.names(token, mid as int));
                assert forall|j: int| self@.names(token, j) implies j == mid by {}
                if Self::stale(entry, now, self.ttl) {
                    return None;
                }
                return Some(entry.cursor.clone());
            }
            if entry.token < token {
                low = mid + 1;
            } else {
                high = mid;
            }
        }
        None
    }

    /// Positions currently held.
    pub fn len(&self) -> (n: usize)
        ensures
            n == self@.live.len(),
    {
        self.live.len()
    }
}

} // verus!
