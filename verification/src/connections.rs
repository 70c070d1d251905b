//! Who is connected, for `stats conns`.
//!
//! Ids are monotonic, not file descriptors: a counter that never repeats is what
//! makes two listings a second apart comparable.
//!
//! Times are milliseconds on a clock that does not go backwards.
use crate::protocol::Protocol;
use crate::stats;
use crate::text;
use vstd::prelude::*;

verus! {

/// What is known about one open connection.
#[derive(Debug)]
pub struct ConnInfo {
    pub id: u64,
    /// The peer's address, as it prints.
    pub peer: String,
    /// The dialect first-byte detection settled on, or `None` until it has.
    pub dialect: Option<Protocol>,
    pub authenticated: bool,
    /// Whether this connection arrived on the TLS port and completed a handshake.
    pub tls: bool,
    /// When the last command ran.
    pub last_command_ms: u64,
}

impl Clone for ConnInfo {
    fn clone(&self) -> (copy: Self)
        ensures
            copy == *self,
    {
        ConnInfo {
            id: self.id,
            peer: self.peer.clone(),
            dialect: self.dialect,
            authenticated: self.authenticated,
            tls: self.tls,
            last_command_ms: self.last_command_ms,
        }
    }
}

impl ConnInfo {
    /// Records that this connection just ran a command.
    pub fn touched(&mut self, now_ms: u64)
        ensures
            *final(self) == (ConnInfo { last_command_ms: now_ms, ..*old(self) }),
    {
        self.last_command_ms = now_ms;
    }

    pub fn dialect_chosen(&mut self, protocol: Protocol)
        ensures
            *final(self) == (ConnInfo { dialect: Some(protocol), ..*old(self) }),
    {
        self.dialect = Some(protocol);
    }

    pub fn authenticated(&mut self)
        ensures
            *final(self) == (ConnInfo { authenticated: true, ..*old(self) }),
    {
        self.authenticated = true;
    }

    /// Records that this connection is encrypted.
    pub fn tls_established(&mut self)
        ensures
            *final(self) == (ConnInfo { tls: true, ..*old(self) }),
    {
        self.tls = true;
    }

    pub fn is_tls(&self) -> (yes: bool)
        ensures
            yes == self.tls,
    {
        self.tls
    }

    /// The dialect's name. A connection that has sent no byte has none yet.
    pub open spec fn dialect_text(self) -> Seq<char> {
        match self.dialect {
            Some(Protocol::Vcp) => "vcp"@,
            Some(Protocol::Memcached) => "memcached"@,
            Some(Protocol::Resp) => "resp"@,
            None => "unknown"@,
        }
    }

    fn dialect_name(&self) -> (name: &'static str)
        ensures
            name@ == self.dialect_text(),
    {
        match self.dialect {
            Some(Protocol::Vcp) => "vcp",
            Some(Protocol::Memcached) => "memcached",
            Some(Protocol::Resp) => "resp",
            None => "unknown",
        }
    }
}

/// Every connection currently open, in the order they opened.
#[derive(Debug)]
pub struct Registry {
    live: Vec<ConnInfo>,
    next: u64,
}

/// What the registry holds: the open connections, and the id the next one gets.
pub struct Roster {
    pub live: Seq<ConnInfo>,
    pub next: u64,
}

impl Roster {
    /// Ids ascend strictly and are all below the next one.
    pub open spec fn wf(self) -> bool {
        &&& self.next > 0
        &&& forall|i: int| 0 <= i < self.live.len() ==> 0 < (#[trigger] self.live[i]).id < self.next
        &&& forall|i: int, j: int|
            0 <= i < j < self.live.len() ==> (#[trigger] self.live[i]).id < (
            #[trigger] self.live[j]).id
    }

    /// Whether the connection at index `i` has this id.
    pub open spec fn at(self, id: u64, i: int) -> bool {
        0 <= i < self.live.len() && self.live[i].id == id
    }
}

/// `<id>:<field>`.
pub open spec fn field_name(id: u64, field: Seq<char>) -> Seq<char> {
    text::decimal(id as nat) + ":"@ + field
}

fn field(id: u64, name: &str) -> (out: String)
    ensures
        out@ == field_name(id, name@),
{
    let mut out = text::decimal_text(id);
    out.append(":");
    out.append(name);
    out
}

/// `tcp:<address>`.
pub open spec fn tcp(addr: Seq<char>) -> Seq<char> {
    "tcp:"@ + addr
}

fn tcp_text(addr: &str) -> (out: String)
    ensures
        out@ == tcp(addr@),
{
    let mut out = "tcp:".to_owned();
    out.append(addr);
    out
}

/// Whole seconds between two times, zero where the second is the earlier.
pub open spec fn seconds_since(then_ms: u64, now_ms: u64) -> nat {
    if now_ms >= then_ms {
        ((now_ms - then_ms) / 1_000) as nat
    } else {
        0
    }
}

/// The rows of one connection.
pub open spec fn conn_rows(info: ConnInfo, listen: Seq<char>, now_ms: u64) -> Seq<stats::Row> {
    seq![
        (field_name(info.id, "addr"@), tcp(info.peer@)),
        (field_name(info.id, "listen_addr"@), tcp(listen)),
        (
            field_name(info.id, "secs_since_last_cmd"@),
            text::decimal(seconds_since(info.last_command_ms, now_ms)),
        ),
        (field_name(info.id, "vash_dialect"@), info.dialect_text()),
        (field_name(info.id, "vash_authenticated"@), stats::yes_no_text(info.authenticated)),
        (field_name(info.id, "vash_tls"@), stats::yes_no_text(info.tls)),
    ]
}

/// The rows of some connections, in order.
pub open spec fn all_conn_rows(live: Seq<ConnInfo>, listen: Seq<char>, now_ms: u64) -> Seq<
    stats::Row,
>
    decreases live.len(),
{
    if live.len() == 0 {
        Seq::empty()
    } else {
        all_conn_rows(live.drop_last(), listen, now_ms) + conn_rows(live.last(), listen, now_ms)
    }
}

/// `stats conns`: the listener, then every connection by id.
pub open spec fn rendering(roster: Roster, listen: Seq<char>, now_ms: u64) -> Seq<stats::Row> {
    seq![("0:addr"@, tcp(listen)), ("0:state"@, "conn_listening"@)] + all_conn_rows(
        roster.live,
        listen,
        now_ms,
    )
}

impl View for Registry {
    type V = Roster;

    closed spec fn view(&self) -> Roster {
        Roster { live: self.live@, next: self.next }
    }
}

impl Default for Registry {
    fn default() -> (registry: Self)
        ensures
            registry@.wf(),
            registry@.live.len() == 0,
            registry@.next == 1,
    {
        Registry { live: Vec::new(), next: 1 }
    }
}

impl Registry {
    /// Whether an id is left to hand out.
    pub fn can_open(&self) -> (yes: bool)
        ensures
            yes == (self@.next < u64::MAX),
    {
        self.next < u64::MAX
    }

    /// Registers a newly accepted connection and returns its id, which no
    /// connection had before and none will have again.
    pub fn open(&mut self, peer: &str, now_ms: u64) -> (id: u64)
        requires
            old(self)@.wf(),
            old(self)@.next < u64::MAX,
        ensures
            final(self)@.wf(),
            id == old(self)@.next,
            final(self)@.next == id + 1,
            final(self)@.live.len() == old(self)@.live.len() + 1,
            final(self)@.live.drop_last() == old(self)@.live,
            final(self)@.live.last().peer@ == peer@,
            final(self)@.live.last() == (ConnInfo {
                id,
                peer: final(self)@.live.last().peer,
                dialect: None,
                authenticated: false,
                tls: false,
                last_command_ms: now_ms,
            }),
    {
        let id: u64 = self.next;
        self.next = id + 1;
        self.live.push(
            ConnInfo {
                id,
                peer: peer.to_owned(),
                dialect: None,
                authenticated: false,
                tls: false,
                last_command_ms: now_ms,
            },
        );
        assert(self.live@.drop_last() =~= old(self).live@);
        id
    }

    fn find(&self, id: u64) -> (found: Option<usize>)
        requires
            self@.wf(),
        ensures
            found is Some ==> self@.at(id, found->0 as int),
            found is None ==> forall|i: int| !self@.at(id, i),
    {
        let mut low: usize = 0;
        let mut high: usize = self.live.len();
        while low < high
            invariant
                self@.wf(),
                low <= high <= self.live@.len(),
                forall|i: int| 0 <= i < low ==> (#[trigger] self@.live[i]).id < id,
                forall|i: int| high <= i < self.live@.len() ==> (#[trigger] self@.live[i]).id > id,
            decreases high - low,
        {
            let mid: usize = low + (high - low) / 2;
            assert(self@.live[mid as int] == self.live@[mid as int]);
            let here: u64 = self.live[mid].id;
            if here == id {
                return Some(mid);
            }
            if here < id {
                low = mid + 1;
            } else {
                high = mid;
            }
        }
        None
    }

    /// Removes a connection. The ids of the others, and the next one, stay.
    pub fn close(&mut self, id: u64)
        requires
            old(self)@.wf(),
        ensures
            final(self)@.wf(),
            final(self)@.next == old(self)@.next,
            forall|i: int| !final(self)@.at(id, i),
            forall|i: int|
                old(self)@.at(id, i) ==> final(self)@.live == #[trigger] old(self)@.live.remove(i),
            (forall|i: int| !old(self)@.at(id, i)) ==> final(self)@.live == old(self)@.live,
    {
        match self.find(id) {
            Some(at) => {
                let ghost before = self@;
                let _ = self.live.remove(at);
                assert(self@.live == before.live.remove(at as int));
                assert forall|i: int| before.at(id, i) implies i == at by {}
            },
            None => {},
        }
    }

    /// Replaces what is known of a connection, where it is still open.
    pub fn update(&mut self, info: ConnInfo)
        requires
            old(self)@.wf(),
        ensures
            final(self)@.wf(),
            final(self)@.next == old(self)@.next,
            forall|i: int|
                old(self)@.at(info.id, i) ==> final(self)@.live == #[trigger] old(
                    self,
                )@.live.update(i, info),
            (forall|i: int| !old(self)@.at(info.id, i)) ==> final(self)@.live == old(self)@.live,
    {
        match self.find(info.id) {
            Some(at) => {
                let ghost before = self@;
                let ghost id = info.id;
                self.live.set(at, info);
                assert(self@.live == before.live.update(at as int, info));
                assert forall|i: int| before.at(id, i) implies i == at by {}
            },
            None => {},
        }
    }

    /// What is known of a connection.
    pub fn get(&self, id: u64) -> (info: Option<&ConnInfo>)
        requires
            self@.wf(),
        ensures
            info is Some <==> exists|i: int| self@.at(id, i),
            info is Some ==> exists|i: int| self@.at(id, i) && self@.live[i] == info->0,
    {
        match self.find(id) {
            Some(at) => {
                assert(self@.at(id, at as int));
                assert(self@.live[at as int] == self.live@[at as int]);
                Some(&self.live[at])
            },
            None => None,
        }
    }

    /// Renders `stats conns`.
    ///
    /// Sorted by id so two calls are comparable, and so the listener, which is
    /// synthetic and has no id of its own, always comes first.
    pub fn render(&self, listen: &str, now_ms: u64) -> (list: Vec<(String, String)>)
        ensures
            stats::rows(list@) == rendering(self@, listen@, now_ms),
    {
        let mut list: Vec<(String, String)> = Vec::new();
        assert(stats::rows(list@) =~= Seq::empty());
        stats::push_row(&mut list, "0:addr", tcp_text(listen));
        stats::push_row(&mut list, "0:state", "conn_listening".to_owned());
        let ghost head = stats::rows(list@);
        let ghost live = self.live@;
        let mut i: usize = 0;
        assert(head + all_conn_rows(live.take(0), listen@, now_ms) =~= head);
        while i < self.live.len()
            invariant
                live == self.live@,
                i <= live.len(),
                stats::rows(list@) == head + all_conn_rows(live.take(i as int), listen@, now_ms),
            decreases live.len() - i,
        {
            let info = &self.live[i];
            let id: u64 = info.id;
            let mut block: Vec<(String, String)> = Vec::new();
            assert(stats::rows(block@) =~= Seq::empty());
            stats::push_row(&mut block, field(id, "addr").as_str(), tcp_text(info.peer.as_str()));
            stats::push_row(&mut block, field(id, "listen_addr").as_str(), tcp_text(listen));
            stats::push_row(
                &mut block,
                field(id, "secs_since_last_cmd").as_str(),
                text::decimal_text(now_ms.saturating_sub(info.last_command_ms) / 1_000),
            );
            stats::push_row(
                &mut block,
                field(id, "vash_dialect").as_str(),
                info.dialect_name().to_owned(),
            );
            stats::push_row(
                &mut block,
                field(id, "vash_authenticated").as_str(),
                stats::yes_no(info.authenticated),
            );
            stats::push_row(
                &mut block,
                field(id, "vash_tls").as_str(),
                stats::yes_no(info.is_tls()),
            );
            assert(stats::rows(block@) == conn_rows(*info, listen@, now_ms));
            let ghost added = stats::rows(block@);
            let ghost done = all_conn_rows(live.take(i as int), listen@, now_ms);
            stats::push_rows(&mut list, block);
            assert(live.take(i + 1).drop_last() =~= live.take(i as int));
            assert(live.take(i + 1).last() == live[i as int]);
            assert((head + done) + added =~= head + (done + added));
            i = i + 1;
        }
        assert(live.take(i as int) =~= live);
        list
    }

    /// Connections currently registered.
    pub fn len(&self) -> (n: usize)
        ensures
            n == self@.live.len(),
    {
        self.live.len()
    }
}

/// Ids are never reused. However many connections opened and closed in between,
/// which never lowers the next id, the id handed out next is larger than that of
/// any connection that was open before.
pub proof fn ids_are_never_reused(before: Roster, after: Roster, i: int)
    requires
        before.wf(),
        0 <= i < before.live.len(),
        before.next <= after.next,
    ensures
        before.live[i].id < after.next,
{
}

/// Every connection is listed once, under its own id, with who it is, how long it has
/// been idle, what it speaks, and whether it has authenticated and is encrypted; the
/// listener comes first.
pub proof fn every_connection_is_listed(roster: Roster, listen: Seq<char>, now_ms: u64, i: int)
    requires
        0 <= i < roster.live.len(),
    ensures
        ({
            let rows = rendering(roster, listen, now_ms);
            let info = roster.live[i];
            let at = 2 + 6 * i;
            &&& rows.len() == 2 + 6 * roster.live.len()
            &&& rows[0].1 == tcp(listen)
            &&& rows[at] == (field_name(info.id, "addr"@), tcp(info.peer@))
            &&& rows[at + 1].1 == tcp(listen)
            &&& rows[at + 2].1 == text::decimal(seconds_since(info.last_command_ms, now_ms))
            &&& rows[at + 3].1 == info.dialect_text()
            &&& rows[at + 4] == (
                field_name(info.id, "vash_authenticated"@),
                stats::yes_no_text(info.authenticated),
            )
            &&& rows[at + 5] == (field_name(info.id, "vash_tls"@), stats::yes_no_text(info.tls))
        }),
        now_ms >= roster.live[i].last_command_ms ==> {
            let idle = seconds_since(roster.live[i].last_command_ms, now_ms);
            idle * 1_000 <= now_ms - roster.live[i].last_command_ms < (idle + 1) * 1_000
        },
{
    lemma_conn_rows(roster.live, listen, now_ms, i);
    let all = all_conn_rows(roster.live, listen, now_ms);
    let rows = rendering(roster, listen, now_ms);
    let own = conn_rows(roster.live[i], listen, now_ms);
    assert forall|k: int| 0 <= k < 6 implies rows[2 + 6 * i + k] == #[trigger] own[k] by {
        assert(all[6 * i + k] == own[k]);
    }
    assert(rows[2 + 6 * i] == own[0]);
    assert(rows[2 + 6 * i + 1] == own[1]);
    assert(rows[2 + 6 * i + 2] == own[2]);
    assert(rows[2 + 6 * i + 3] == own[3]);
    assert(rows[2 + 6 * i + 4] == own[4]);
    assert(rows[2 + 6 * i + 5] == own[5]);
}

proof fn lemma_conn_rows(live: Seq<ConnInfo>, listen: Seq<char>, now_ms: u64, i: int)
    requires
        0 <= i < live.len(),
    ensures
        all_conn_rows(live, listen, now_ms).len() == 6 * live.len(),
        forall|k: int|
            0 <= k < 6 ==> #[trigger] all_conn_rows(live, listen, now_ms)[6 * i + k] == conn_rows(
                live[i],
                listen,
                now_ms,
            )[k],
    decreases live.len(),
{
    let front = live.drop_last();
    if i < front.len() {
        lemma_conn_rows(front, listen, now_ms, i);
    } else if front.len() > 0 {
        lemma_conn_rows(front, listen, now_ms, 0);
    } else {
        assert(all_conn_rows(front, listen, now_ms).len() == 0);
    }
}

} // verus!
