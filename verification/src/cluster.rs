//! Cluster tag invalidation: what is fanned out to the peers, how one exchange
//! with a peer proceeds, and what its outcome changes.
//!
//! Nodes are shared-nothing. The one exception is tag invalidation, because a
//! tag's keys are spread by key hash across every node. Generations merge by
//! maximum, so a dropped message is corrected by the next round of gossip and a
//! full queue can discard rather than block a write.
use crate::config::{ClusterConfig, FanoutMode};
use crate::domain;
use crate::domain::{ClusterInfo, ClusterMode, PeerInfo, TagGeneration};
use crate::metrics::{ClusterCounters, ClusterMetrics};
use vstd::prelude::*;

verus! {

/// The mode a configured setting stands for.
pub open spec fn mode_of(mode: FanoutMode) -> ClusterMode {
    match mode {
        FanoutMode::Local => ClusterMode::Local,
        FanoutMode::Fanout => ClusterMode::Fanout,
        FanoutMode::FanoutSync => ClusterMode::FanoutSync,
    }
}

impl vstd::std_specs::convert::FromSpecImpl<FanoutMode> for ClusterMode {
    open spec fn obeys_from_spec() -> bool {
        true
    }

    open spec fn from_spec(mode: FanoutMode) -> ClusterMode {
        mode_of(mode)
    }
}

impl From<FanoutMode> for ClusterMode {
    fn from(mode: FanoutMode) -> (out: Self) {
        match mode {
            FanoutMode::Local => ClusterMode::Local,
            FanoutMode::Fanout => ClusterMode::Fanout,
            FanoutMode::FanoutSync => ClusterMode::FanoutSync,
        }
    }
}

/// Whether a mode carries invalidations to the peers.
pub open spec fn fans_out(mode: ClusterMode) -> bool {
    mode != ClusterMode::Local
}

#[derive(Debug)]
struct Peer {
    addr: String,
    /// Whether the last exchange succeeded. False before the first attempt: it
    /// reports what is known, never an optimistic guess.
    reachable: bool,
}

/// The cluster tier.
///
/// Always present, even with no peers configured, so that what is reported of it
/// needs no special case.
#[derive(Debug)]
pub struct Cluster {
    mode: ClusterMode,
    peers: Vec<Peer>,
    /// Whether peer connections present a credential.
    credentialed: bool,
    metrics: ClusterMetrics,
}

/// One peer: its address, and whether the last exchange with it succeeded.
#[verifier::ext_equal]
pub struct Link {
    pub addr: Seq<char>,
    pub reachable: bool,
}

/// What the cluster tier holds.
#[verifier::ext_equal]
pub struct Membership {
    pub mode: ClusterMode,
    pub peers: Seq<Link>,
    pub credentialed: bool,
    pub counters: ClusterCounters,
}

spec fn links(peers: Seq<Peer>) -> Seq<Link> {
    Seq::new(peers.len(), |i: int| Link { addr: peers[i].addr@, reachable: peers[i].reachable })
}

/// The links that a cluster view lists.
pub open spec fn listed(peers: Seq<PeerInfo>) -> Seq<Link> {
    Seq::new(peers.len(), |i: int| Link { addr: peers[i].addr@, reachable: peers[i].reachable })
}

/// How many links are up.
pub open spec fn up(peers: Seq<Link>) -> nat {
    domain::count_true(Seq::new(peers.len(), |i: int| peers[i].reachable))
}

impl Membership {
    /// Whether an invalidation is propagated.
    pub open spec fn active(self) -> bool {
        fans_out(self.mode) && self.peers.len() > 0
    }
}

/// An invalidation on its way to every peer.
#[derive(Debug)]
pub struct Invalidation {
    pub name: Vec<u8>,
    pub generation: u64,
    /// Whether the client's reply waits until each peer has been tried.
    pub synchronous: bool,
}

/// Whether an invalidation tells a peer what happened here: of that tag, and that
/// generation.
pub open spec fn tells(sent: Invalidation, name: Seq<u8>, generation: u64) -> bool {
    sent.name@ == name && sent.generation == generation
}

/// Why an exchange with a peer failed, as the client of the peer tells it.
#[derive(Debug)]
pub enum ClientFault {
    /// The peer refused this node's credential.
    Unauthorized(String),
    Other(String),
}

/// Why an exchange failed.
#[derive(Debug)]
pub enum PeerError {
    ConnectTimeout,
    Client(ClientFault),
    Timeout,
}

impl PeerError {
    /// The text of an error.
    pub open spec fn text(self) -> Seq<char> {
        match self {
            PeerError::ConnectTimeout => "connecting to the peer timed out"@,
            PeerError::Client(ClientFault::Unauthorized(what)) => what@,
            PeerError::Client(ClientFault::Other(what)) => what@,
            PeerError::Timeout => "the exchange timed out"@,
        }
    }

    pub fn message(&self) -> (out: String)
        ensures
            out@ == self.text(),
    {
        match self {
            PeerError::ConnectTimeout => "connecting to the peer timed out".to_owned(),
            PeerError::Client(ClientFault::Unauthorized(what)) => what.clone(),
            PeerError::Client(ClientFault::Other(what)) => what.clone(),
            PeerError::Timeout => "the exchange timed out".to_owned(),
        }
    }

    /// Whether a credential was refused: a configuration error, not
    /// unreachability.
    pub open spec fn unauthorized(self) -> bool {
        self matches PeerError::Client(fault) && fault is Unauthorized
    }

    fn is_unauthorized(&self) -> (yes: bool)
        ensures
            yes == self.unauthorized(),
    {
        matches!(self, PeerError::Client(ClientFault::Unauthorized(_)))
    }
}

/// What an operator is told about a failed exchange.
#[derive(Debug, Clone, Copy, PartialEq, Eq, Structural)]
pub enum Notice {
    Nothing,
    /// The peer refused this node's credential, so nothing will converge with
    /// it until the configuration changes.
    CredentialRefused,
    BecameUnreachable,
}

/// What is said about the outcome of an exchange. A peer that becomes unreachable
/// is told once. A refused credential is told each time where one is presented:
/// such a peer may never have been reachable.
pub open spec fn notice_of(
    failure: Option<PeerError>,
    was_reachable: bool,
    credentialed: bool,
) -> Notice {
    match failure {
        None => Notice::Nothing,
        Some(error) => if error.unauthorized() && (was_reachable || credentialed) {
            Notice::CredentialRefused
        } else if !error.unauthorized() && was_reachable {
            Notice::BecameUnreachable
        } else {
            Notice::Nothing
        },
    }
}

impl Cluster {
    pub closed spec fn membership(self) -> Membership {
        Membership {
            mode: self.mode,
            peers: links(self.peers@),
            credentialed: self.credentialed,
            counters: self.metrics@,
        }
    }

    /// The cluster tier a configuration asks for. Every peer starts unreached.
    pub fn start(config: &ClusterConfig, now_ms: u64) -> (cluster: Self)
        ensures
            cluster.membership().mode == mode_of(config.delete_by_tag),
            cluster.membership().peers.len() == config.peers@.len(),
            forall|i: int|
                0 <= i < config.peers@.len() ==> (#[trigger] cluster.membership().peers[i]) == (Link {
                    addr: config.peers@[i]@,
                    reachable: false,
                }),
            cluster.membership().credentialed == (config.auth_secret@.len() > 0),
            cluster.membership().counters == (ClusterCounters {
                peers: config.peers@.len() as u64,
                fanout_sent: 0,
                fanout_failed: 0,
                gossip_rounds: 0,
                gossip_failed: 0,
                merged: 0,
                last_gossip_ms: 0,
                started: Some(now_ms),
            }),
    {
        let mut peers: Vec<Peer> = Vec::new();
        let mut i: usize = 0;
        while i < config.peers.len()
            invariant
                i <= config.peers@.len(),
                peers@.len() == i,
                forall|j: int|
                    0 <= j < i ==> (#[trigger] peers@[j]).addr@ == config.peers@[j]@
                        && !peers@[j].reachable,
            decreases config.peers@.len() - i,
        {
            peers.push(Peer { addr: config.peers[i].clone(), reachable: false });
            i = i + 1;
        }
        let mut metrics = ClusterMetrics::default();
        metrics.peers_configured(peers.len() as u64, now_ms);
        Cluster {
            mode: ClusterMode::from(config.delete_by_tag),
            peers,
            credentialed: config.credential().is_some(),
            metrics,
        }
    }

    /// Whether this node propagates invalidations, which is what the `CLUSTER`
    /// capability claims.
    pub fn active(&self) -> (yes: bool)
        ensures
            yes == self.membership().active(),
    {
        self.mode != ClusterMode::Local && self.peers.len() > 0
    }

    /// How many peers are configured.
    pub fn peer_count(&self) -> (n: usize)
        ensures
            n == self.membership().peers.len(),
    {
        self.peers.len()
    }

    /// This node's view of the cluster, for whoever asks and for the stats page.
    pub fn view(&self) -> (info: ClusterInfo)
        ensures
            info.mode == self.membership().mode,
            listed(info.peers@) == self.membership().peers,
    {
        let mut peers: Vec<PeerInfo> = Vec::new();
        let mut i: usize = 0;
        while i < self.peers.len()
            invariant
                i <= self.peers@.len(),
                peers@.len() == i,
                forall|j: int|
                    0 <= j < i ==> (#[trigger] peers@[j]).addr@ == self.peers@[j].addr@
                        && peers@[j].reachable == self.peers@[j].reachable,
            decreases self.peers@.len() - i,
        {
            let peer = &self.peers[i];
            peers.push(PeerInfo { addr: peer.addr.clone(), reachable: peer.reachable });
            i = i + 1;
        }
        assert(listed(peers@) =~= self.membership().peers);
        ClusterInfo { mode: self.mode, peers }
    }

    pub fn metrics(&self) -> (metrics: &ClusterMetrics)
        ensures
            metrics@ == self.membership().counters,
    {
        &self.metrics
    }

    /// How many peers answered the last exchange with them.
    pub fn peers_reachable(&self) -> (n: u64)
        ensures
            n == up(self.membership().peers),
    {
        let mut flags: Vec<bool> = Vec::new();
        let mut i: usize = 0;
        while i < self.peers.len()
            invariant
                i <= self.peers@.len(),
                flags@.len() == i,
                forall|j: int| 0 <= j < i ==> flags@[j] == (#[trigger] self.peers@[j]).reachable,
            decreases self.peers@.len() - i,
        {
            flags.push(self.peers[i].reachable);
            i = i + 1;
        }
        assert(flags@ =~= Seq::new(
            self.membership().peers.len(),
            |i: int| self.membership().peers[i].reachable,
        ));
        domain::hits(&flags)
    }

    /// What a local invalidation sends to every peer, or nothing where this node
    /// does not propagate any.
    ///
    /// It never reports failure: the local invalidation has already committed,
    /// so an error would describe the peers rather than the request.
    pub fn invalidate(&self, name: &[u8], generation: u64) -> (message: Option<Invalidation>)
        ensures
            message is Some <==> self.membership().active(),
            message is Some ==> {
                &&& (message->0).name@ == name@
                &&& (message->0).generation == generation
                &&& (message->0).synchronous == (self.membership().mode == ClusterMode::FanoutSync)
            },
            message matches Some(sent) ==> tells(sent, name@, generation),
            message is None ==> self.membership().mode == ClusterMode::Local
                || self.membership().peers.len() == 0,
    {
        if !self.active() {
            return None;
        }
        Some(
            Invalidation {
                name: vstd::slice::slice_to_vec(name),
                generation,
                synchronous: self.mode == ClusterMode::FanoutSync,
            },
        )
    }

    /// Counts the peers whose queue did not take an invalidation, and tells which
    /// acknowledgements to wait for: in a synchronous fan-out, those of the peers
    /// whose queue took it.
    ///
    /// Dropping is safe, because generations merge by maximum and the next round
    /// of gossip delivers this anyway.
    pub fn queued(&mut self, synchronous: bool, accepted: &Vec<bool>) -> (awaited: Vec<usize>)
        ensures
            final(self).membership() == (Membership {
                counters: ClusterCounters {
                    fanout_failed: old(self).membership().counters.fanout_failed.wrapping_add(
                        (accepted@.len() - domain::count_true(accepted@)) as u64,
                    ),
                    ..old(self).membership().counters
                },
                ..old(self).membership()
            }),
            awaited@ == (if synchronous {
                indices_of_true(accepted@)
            } else {
                Seq::empty()
            }),
    {
        let mut awaited: Vec<usize> = Vec::new();
        let ghost before = self.membership();
        let mut i: usize = 0;
        assert(accepted@.take(0) =~= Seq::empty());
        while i < accepted.len()
            invariant
                i <= accepted@.len(),
                domain::count_true(accepted@.take(i as int)) <= i,
                self.membership() == (Membership {
                    counters: ClusterCounters {
                        fanout_failed: before.counters.fanout_failed.wrapping_add(
                            (i - domain::count_true(accepted@.take(i as int))) as u64,
                        ),
                        ..before.counters
                    },
                    ..before
                }),
                awaited@ == (if synchronous {
                    indices_of_true(accepted@.take(i as int))
                } else {
                    Seq::empty()
                }),
            decreases accepted@.len() - i,
        {
            assert(accepted@.take(i + 1).drop_last() =~= accepted@.take(i as int));
            if accepted[i] {
                if synchronous {
                    awaited.push(i);
                }
            } else {
                self.metrics.fanout_failed();
            }
            i = i + 1;
        }
        assert(accepted@.take(i as int) =~= accepted@);
        awaited
    }

    /// Settles what an exchange with a peer ended in: its reachability, and what
    /// an operator is told. A connection whose exchange failed is not worth
    /// keeping, whatever went wrong.
    pub fn exchanged(&mut self, peer: usize, failure: Option<&PeerError>) -> (notice: Notice)
        requires
            peer < old(self).membership().peers.len(),
        ensures
            final(self).membership() == (Membership {
                peers: old(self).membership().peers.update(
                    peer as int,
                    Link { reachable: failure is None, ..old(self).membership().peers[peer as int] },
                ),
                ..old(self).membership()
            }),
            notice == notice_of(
                match failure {
                    Some(error) => Some(*error),
                    None => None,
                },
                old(self).membership().peers[peer as int].reachable,
                old(self).membership().credentialed,
            ),
            final(self).membership().peers[peer as int].reachable <==> failure is None,
            forall|i: int|
                0 <= i < old(self).membership().peers.len() && i != peer ==> (
                #[trigger] final(self).membership().peers[i]) == old(self).membership().peers[i],
            failure is None ==> notice == Notice::Nothing,
    {
        let ghost before = self.membership();
        let was_reachable = self.peers[peer].reachable;
        self.peers[peer].reachable = failure.is_none();
        assert(self.membership().peers =~= before.peers.update(
            peer as int,
            Link { reachable: failure is None, ..before.peers[peer as int] },
        ));
        match failure {
            None => Notice::Nothing,
            Some(error) => {
                if error.is_unauthorized() {
                    if was_reachable || self.credentialed {
                        Notice::CredentialRefused
                    } else {
                        Notice::Nothing
                    }
                } else if was_reachable {
                    Notice::BecameUnreachable
                } else {
                    Notice::Nothing
                }
            },
        }
    }

    /// Counts a fan-out that was tried.
    pub fn fanned_out(&mut self, succeeded: bool, now_ms: u64)
        ensures
            final(self).membership() == (Membership {
                counters: if succeeded {
                    ClusterCounters {
                        fanout_sent: old(self).membership().counters.fanout_sent.wrapping_add(1),
                        last_gossip_ms: old(self).membership().counters.uptime(now_ms),
                        ..old(self).membership().counters.running(now_ms)
                    }
                } else {
                    ClusterCounters {
                        fanout_failed: old(self).membership().counters.fanout_failed.wrapping_add(1),
                        ..old(self).membership().counters
                    }
                },
                ..old(self).membership()
            }),
    {
        if succeeded {
            self.metrics.fanout_sent(now_ms);
        } else {
            self.metrics.fanout_failed();
        }
    }

    /// Counts a round of gossip that was tried.
    pub fn gossiped(&mut self, succeeded: bool, now_ms: u64)
        ensures
            final(self).membership() == (Membership {
                counters: if succeeded {
                    ClusterCounters {
                        gossip_rounds: old(self).membership().counters.gossip_rounds.wrapping_add(1),
                        last_gossip_ms: old(self).membership().counters.uptime(now_ms),
                        ..old(self).membership().counters.running(now_ms)
                    }
                } else {
                    ClusterCounters {
                        gossip_failed: old(self).membership().counters.gossip_failed.wrapping_add(1),
                        ..old(self).membership().counters
                    }
                },
                ..old(self).membership()
            }),
    {
        if succeeded {
            self.metrics.gossip_round(now_ms);
        } else {
            self.metrics.gossip_failed();
        }
    }

    /// Counts generations learned from a peer and merged here.
    pub fn merged(&mut self, applied: u64)
        ensures
            final(self).membership() == (Membership {
                counters: ClusterCounters {
                    merged: old(self).membership().counters.merged.wrapping_add(applied),
                    ..old(self).membership().counters
                },
                ..old(self).membership()
            }),
    {
        self.metrics.merged(applied);
    }
}

/// The indices at which a list is true, in order.
pub open spec fn indices_of_true(flags: Seq<bool>) -> Seq<usize>
    decreases flags.len(),
{
    if flags.len() == 0 {
        Seq::empty()
    } else if flags.last() {
        indices_of_true(flags.drop_last()).push((flags.len() - 1) as usize)
    } else {
        indices_of_true(flags.drop_last())
    }
}

/// How an exchange goes on.
#[derive(Debug, Clone, Copy, PartialEq, Eq, Structural)]
pub enum Next {
    /// Connect, presenting the credential where there is one.
    Connect,
    /// Send the tags over the connection.
    Sync,
}

/// What came of the last step of an exchange.
#[derive(Debug)]
pub enum Event {
    Connected,
    ConnectFailed(ClientFault),
    ConnectTimedOut,
    Synced(Vec<TagGeneration>),
    SyncFailed(ClientFault),
    SyncTimedOut,
}

/// What a step leads to.
#[derive(Debug)]
pub enum Progress {
    Continue(Next),
    Finished(Result<Vec<TagGeneration>, PeerError>),
}

/// One round trip with a peer, reconnecting once where the connection kept since
/// the last one has gone stale.
///
/// One reconnect and no more: past that it is the peer that is broken, not the
/// socket.
#[derive(Debug)]
pub struct Exchange {
    /// Whether the one reconnect is spent.
    pub retried: bool,
    pub next: Next,
}

/// Whether an exchange goes on as it should: it ends well exactly with what the peer told,
/// it ends badly with what went wrong last, and it tries again exactly once, on a new
/// connection, and only where a connection that was there failed.
pub open spec fn concludes(
    before: Exchange,
    event: Event,
    after: Exchange,
    progress: Progress,
) -> bool {
    match progress {
        Progress::Finished(Ok(learned)) => event == Event::Synced(learned),
        Progress::Finished(Err(PeerError::Client(fault))) => event == Event::ConnectFailed(fault)
            || before.retried && event == Event::SyncFailed(fault),
        Progress::Finished(Err(PeerError::ConnectTimeout)) => event is ConnectTimedOut,
        Progress::Finished(Err(PeerError::Timeout)) => event is SyncTimedOut,
        Progress::Continue(Next::Sync) => event is Connected && after.retried == before.retried,
        Progress::Continue(Next::Connect) => event is SyncFailed && !before.retried
            && after.retried,
    }
}

impl Exchange {
    /// Begins an exchange over the connection at hand, or over a new one.
    pub fn begin(connected: bool) -> (exchange: Self)
        ensures
            !exchange.retried,
            exchange.next == (if connected {
                Next::Sync
            } else {
                Next::Connect
            }),
    {
        Exchange {
            retried: false,
            next: if connected {
                Next::Sync
            } else {
                Next::Connect
            },
        }
    }

    /// Whether an event can come of the step at hand.
    pub open spec fn expects(self, event: Event) -> bool {
        match event {
            Event::Connected | Event::ConnectFailed(_) | Event::ConnectTimedOut => self.next
                == Next::Connect,
            Event::Synced(_) | Event::SyncFailed(_) | Event::SyncTimedOut => self.next
                == Next::Sync,
        }
    }

    /// Steps left at most.
    pub open spec fn steps_left(self) -> nat {
        (if self.next == Next::Connect {
            2nat
        } else {
            1
        }) + (if self.retried {
            0nat
        } else {
            2
        })
    }

    /// Takes what came of the step at hand and says how to go on. The exchange
    /// ends after at most four steps.
    pub fn step(&mut self, event: Event) -> (progress: Progress)
        requires
            old(self).expects(event),
        ensures
            match event {
                Event::Connected => {
                    &&& progress == Progress::Continue(Next::Sync)
                    &&& *final(self) == (Exchange { next: Next::Sync, ..*old(self) })
                },
                Event::ConnectFailed(fault) => progress == Progress::Finished(
                    Err(PeerError::Client(fault)),
                ),
                Event::ConnectTimedOut => progress == Progress::Finished(
                    Err(PeerError::ConnectTimeout),
                ),
                Event::Synced(learned) => progress == Progress::Finished(Ok(learned)),
                Event::SyncFailed(fault) => if old(self).retried {
                    progress == Progress::Finished(Err(PeerError::Client(fault)))
                } else {
                    &&& progress == Progress::Continue(Next::Connect)
                    &&& *final(self) == (Exchange { retried: true, next: Next::Connect })
                },
                Event::SyncTimedOut => progress == Progress::Finished(Err(PeerError::Timeout)),
            },
            progress is Continue ==> final(self).steps_left() < old(self).steps_left(),
            progress is Continue ==> progress->Continue_0 == final(self).next,
            progress is Finished ==> *final(self) == *old(self),
            concludes(*old(self), event, *final(self), progress),
    {
        match event {
            Event::Connected => {
                self.next = Next::Sync;
                Progress::Continue(Next::Sync)
            },
            Event::ConnectFailed(fault) => Progress::Finished(Err(PeerError::Client(fault))),
            Event::ConnectTimedOut => Progress::Finished(Err(PeerError::ConnectTimeout)),
            Event::Synced(learned) => Progress::Finished(Ok(learned)),
            Event::SyncFailed(fault) => {
                if self.retried {
                    return Progress::Finished(Err(PeerError::Client(fault)));
                }
                self.retried = true;
                self.next = Next::Connect;
                Progress::Continue(Next::Connect)
            },
            Event::SyncTimedOut => Progress::Finished(Err(PeerError::Timeout)),
        }
    }
}

/// An invalidation leaves this node exactly where the configuration says so and there
/// is a peer to send it to, and the client's reply waits for the peers exactly where
/// it says that too.
pub proof fn a_configured_mode_is_kept(mode: FanoutMode, membership: Membership)
    requires
        membership.mode == mode_of(mode),
    ensures
        membership.active() <==> mode != FanoutMode::Local && membership.peers.len() > 0,
        membership.mode == ClusterMode::FanoutSync <==> mode == FanoutMode::FanoutSync,
        membership.mode == ClusterMode::Local <==> mode == FanoutMode::Local,
{
}

/// An operator is told of nothing that works, of a peer that is lost when it is lost,
/// and of a credential that is refused as often as one is presented. A refused
/// credential is never taken for a peer that cannot be reached.
pub proof fn an_operator_is_told_what_to_mend(
    failure: Option<PeerError>,
    was_reachable: bool,
    credentialed: bool,
)
    ensures
        failure is None ==> notice_of(failure, was_reachable, credentialed) == Notice::Nothing,
        notice_of(failure, was_reachable, credentialed) == Notice::CredentialRefused
            ==> failure->0.unauthorized(),
        notice_of(failure, was_reachable, credentialed) == Notice::BecameUnreachable
            ==> was_reachable && !failure->0.unauthorized(),
        failure is Some && was_reachable ==> notice_of(failure, was_reachable, credentialed)
            != Notice::Nothing,
        failure is Some && failure->0.unauthorized() && credentialed ==> notice_of(
            failure,
            was_reachable,
            credentialed,
        ) == Notice::CredentialRefused,
{
}

/// The acknowledgements that are awaited are those of the queues that took the
/// invalidation: every one of them, once, in order.
pub proof fn every_queue_that_took_it_is_awaited(flags: Seq<bool>)
    requires
        flags.len() <= usize::MAX,
    ensures
        forall|i: int|
            0 <= i < flags.len() ==> (#[trigger] flags[i] <==> indices_of_true(flags).contains(
                i as usize,
            )),
        forall|k: int|
            0 <= k < indices_of_true(flags).len() ==> 0 <= (#[trigger] indices_of_true(flags)[k])
                < flags.len(),
        forall|j: int, k: int|
            0 <= j < k < indices_of_true(flags).len() ==> (#[trigger] indices_of_true(flags)[j]) < (
            #[trigger] indices_of_true(flags)[k]),
    decreases flags.len(),
{
    if flags.len() > 0 {
        let front = flags.drop_last();
        let before = indices_of_true(front);
        let after = indices_of_true(flags);
        let last = (flags.len() - 1) as usize;
        every_queue_that_took_it_is_awaited(front);
        assert forall|i: int| 0 <= i < flags.len() implies (#[trigger] flags[i] <==> after.contains(
            i as usize,
        )) by {
            if i < front.len() {
                assert(front[i] == flags[i]);
                if before.contains(i as usize) {
                    let k = choose|k: int| 0 <= k < before.len() && before[k] == i as usize;
                    assert(after[k] == i as usize);
                }
                if after.contains(i as usize) {
                    let k = choose|k: int| 0 <= k < after.len() && after[k] == i as usize;
                    assert(k < before.len());
                    assert(before[k] == i as usize);
                }
            } else if flags[i] {
                assert(after[before.len() as int] == last);
            } else if after.contains(last) {
                let k = choose|k: int| 0 <= k < after.len() && after[k] == last;
                assert(before[k] < front.len());
            }
        }
    }
}

/// Whether some answers are what merging some tags gave: nothing is merged of a
/// tag that was never invalidated.
pub open spec fn merge_answers<F: Fn(&TagGeneration) -> bool>(
    entries: Seq<TagGeneration>,
    merge: F,
    answers: Seq<bool>,
) -> bool {
    &&& answers.len() == entries.len()
    &&& forall|i: int|
        #![trigger answers[i]]
        0 <= i < entries.len() ==> if entries[i].generation == 0 {
            !answers[i]
        } else {
            call_ensures(merge, (&entries[i],), answers[i])
        }
}

/// A tag that was never invalidated anywhere is never merged, and every other one is
/// put to the store: what the store says of it is what is answered.
pub proof fn a_tag_never_invalidated_is_never_merged<F: Fn(&TagGeneration) -> bool>(
    entries: Seq<TagGeneration>,
    merge: F,
    answers: Seq<bool>,
    i: int,
)
    requires
        merge_answers(entries, merge, answers),
        0 <= i < entries.len(),
    ensures
        answers.len() == entries.len(),
        answers[i] ==> entries[i].generation > 0 && call_ensures(merge, (&entries[i],), true),
        entries[i].generation > 0 && !answers[i] ==> call_ensures(merge, (&entries[i],), false),
{
}

/// Merges a batch of tag generations into the store, telling how many the store
/// took.
///
/// Generation 0 means "never invalidated anywhere", which carries no
/// information, and merging it would register the name here, letting a peer's
/// registry grow this one for nothing.
pub fn apply_merges<F: Fn(&TagGeneration) -> bool>(entries: &Vec<TagGeneration>, merge: F) -> (
    applied: u64)
    requires
        forall|i: int|
            0 <= i < entries@.len() && (#[trigger] entries@[i]).generation > 0 ==> call_requires(
                merge,
                (&entries@[i],),
            ),
    ensures
        exists|answers: Seq<bool>|
            #![trigger domain::count_true(answers)]
            merge_answers(entries@, merge, answers) && applied == domain::count_true(answers),
{
    let mut answers: Vec<bool> = Vec::new();
    let mut i: usize = 0;
    while i < entries.len()
        invariant
            i <= entries@.len(),
            forall|i: int|
                0 <= i < entries@.len() && (#[trigger] entries@[i]).generation > 0
                    ==> call_requires(merge, (&entries@[i],)),
            merge_answers(entries@.take(i as int), merge, answers@),
        decreases entries@.len() - i,
    {
        let entry = &entries[i];
        let answer = if entry.generation == 0 {
            false
        } else {
            merge(entry)
        };
        let ghost before = answers@;
        answers.push(answer);
        assert forall|j: int|
            #![trigger answers@[j]]
            0 <= j < i + 1 implies if entries@.take(i + 1)[j].generation == 0 {
            !answers@[j]
        } else {
            call_ensures(merge, (&entries@.take(i + 1)[j],), answers@[j])
        } by {
            if j < i {
                assert(answers@[j] == before[j]);
                assert(entries@.take(i + 1)[j] == entries@.take(i as int)[j]);
            }
        }
        i = i + 1;
    }
    assert(entries@.take(i as int) =~= entries@);
    domain::hits(&answers)
}

/// As many peers are up as there are links of which the last exchange succeeded.
pub proof fn a_peer_is_up_where_the_last_exchange_succeeded(peers: Seq<Link>)
    ensures
        up(peers) == Set::new(|i: int| 0 <= i < peers.len() && peers[i].reachable).len(),
{
    let flags = Seq::new(peers.len(), |i: int| peers[i].reachable);
    domain::hits_are_counted_by_place(flags);
    assert(domain::hit_places(flags) =~= Set::new(
        |i: int| 0 <= i < peers.len() && peers[i].reachable,
    ));
}

/// No more peers are reachable than there are.
pub proof fn reachable_peers_are_peers(peers: Seq<Link>)
    ensures
        up(peers) <= peers.len(),
{
    lemma_count_true_bounded(Seq::new(peers.len(), |i: int| peers[i].reachable));
}

proof fn lemma_count_true_bounded(flags: Seq<bool>)
    ensures
        domain::count_true(flags) <= flags.len(),
    decreases flags.len(),
{
    if flags.len() > 0 {
        lemma_count_true_bounded(flags.drop_last());
    }
}

} // verus!
