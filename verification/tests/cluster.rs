use std::cell::RefCell;
use vash_server::cluster::{
    apply_merges, ClientFault, Cluster, Event, Exchange, Next, Notice, PeerError, Progress,
};
use vash_server::config::{ClusterConfig, FanoutMode};
use vash_server::domain::{ClusterMode, TagGeneration};

fn config(peers: &[&str], mode: FanoutMode) -> ClusterConfig {
    let mut config = ClusterConfig::default();
    config.peers = peers.iter().map(|p| p.to_string()).collect();
    config.delete_by_tag = mode;
    config
}

fn tag(name: &str, generation: u64) -> TagGeneration {
    TagGeneration {
        name: name.as_bytes().to_vec(),
        generation,
    }
}

fn refused() -> PeerError {
    PeerError::Client(ClientFault::Unauthorized("refused".to_string()))
}

#[test]
fn a_setting_names_its_mode() {
    assert_eq!(ClusterMode::from(FanoutMode::Local), ClusterMode::Local);
    assert_eq!(ClusterMode::from(FanoutMode::Fanout), ClusterMode::Fanout);
    assert_eq!(ClusterMode::from(FanoutMode::FanoutSync), ClusterMode::FanoutSync);
}

#[test]
fn a_peer_is_unreachable_until_it_was_reached() {
    let mut cluster = Cluster::start(&config(&["a:1", "b:2"], FanoutMode::Fanout), 0);
    assert!(cluster.active());
    assert_eq!(cluster.peer_count(), 2);
    assert_eq!(cluster.peers_reachable(), 0);
    let view = cluster.view();
    assert_eq!(view.mode, ClusterMode::Fanout);
    assert_eq!(view.peers[1].addr, "b:2");
    assert!(!view.peers[1].reachable);

    assert_eq!(cluster.exchanged(1, None), Notice::Nothing);
    assert_eq!(cluster.peers_reachable(), 1);
    assert!(cluster.view().peers[1].reachable);
    // However it fails, a peer that did not answer is not reachable.
    assert_eq!(
        cluster.exchanged(1, Some(&PeerError::ConnectTimeout)),
        Notice::BecameUnreachable
    );
    assert_eq!(cluster.peers_reachable(), 0);
    assert_eq!(cluster.exchanged(1, Some(&PeerError::Timeout)), Notice::Nothing);
}

#[test]
fn a_refused_credential_is_said() {
    let mut open = Cluster::start(&config(&["a:1"], FanoutMode::Fanout), 0);
    assert_eq!(open.exchanged(0, Some(&refused())), Notice::Nothing);
    let mut settings = config(&["a:1"], FanoutMode::Fanout);
    settings.auth_secret = "s".to_string();
    let mut closed = Cluster::start(&settings, 0);
    assert_eq!(closed.exchanged(0, Some(&refused())), Notice::CredentialRefused);
}

#[test]
fn only_a_node_that_fans_out_sends_anything() {
    let local = Cluster::start(&config(&["a:1"], FanoutMode::Local), 0);
    assert!(!local.active());
    assert!(local.invalidate(b"t", 1).is_none());
    let alone = Cluster::start(&config(&[], FanoutMode::FanoutSync), 0);
    assert!(alone.invalidate(b"t", 1).is_none());
    let sync = Cluster::start(&config(&["a:1"], FanoutMode::FanoutSync), 0);
    let message = sync.invalidate(b"t", 7).unwrap();
    assert_eq!(message.name, b"t");
    assert_eq!(message.generation, 7);
    assert!(message.synchronous);
    let background = Cluster::start(&config(&["a:1"], FanoutMode::Fanout), 0);
    assert!(!background.invalidate(b"t", 7).unwrap().synchronous);
}

#[test]
fn a_full_queue_is_counted_and_not_waited_for() {
    let mut cluster = Cluster::start(&config(&["a:1", "b:1", "c:1"], FanoutMode::FanoutSync), 0);
    assert_eq!(cluster.queued(true, &vec![true, false, true]), [0, 2]);
    assert!(cluster.queued(false, &vec![true, true, false]).is_empty());
    let mut metrics = *cluster.metrics();
    metrics.fanout_failed();
    assert_eq!(metrics.gossip_rounds(), 0);
}

#[test]
fn rounds_are_counted_by_what_became_of_them() {
    let mut cluster = Cluster::start(&config(&["a:1"], FanoutMode::Fanout), 10);
    cluster.gossiped(true, 30);
    cluster.gossiped(false, 40);
    cluster.fanned_out(true, 50);
    cluster.fanned_out(false, 60);
    cluster.merged(3);
    assert_eq!(cluster.metrics().gossip_rounds(), 1);
    let mut metrics = *cluster.metrics();
    assert_eq!(metrics.since_last_exchange_ms(80), 30);
}

#[test]
fn an_exchange_reconnects_once() {
    let fault = || ClientFault::Other("reset".to_string());
    let mut exchange = Exchange::begin(true);
    assert_eq!(exchange.next, Next::Sync);
    assert!(matches!(
        exchange.step(Event::SyncFailed(fault())),
        Progress::Continue(Next::Connect)
    ));
    assert!(matches!(exchange.step(Event::Connected), Progress::Continue(Next::Sync)));
    match exchange.step(Event::SyncFailed(fault())) {
        Progress::Finished(Err(error)) => assert_eq!(error.message(), "reset"),
        other => panic!("{other:?}"),
    }
}

#[test]
fn an_exchange_ends_in_each_of_its_errors() {
    let mut exchange = Exchange::begin(false);
    assert_eq!(exchange.next, Next::Connect);
    match exchange.step(Event::ConnectTimedOut) {
        Progress::Finished(Err(error)) => {
            assert_eq!(error.message(), "connecting to the peer timed out")
        }
        other => panic!("{other:?}"),
    }
    let mut exchange = Exchange::begin(false);
    assert!(matches!(
        exchange.step(Event::ConnectFailed(ClientFault::Unauthorized("no".to_string()))),
        Progress::Finished(Err(PeerError::Client(ClientFault::Unauthorized(_))))
    ));
    let mut exchange = Exchange::begin(true);
    match exchange.step(Event::SyncTimedOut) {
        Progress::Finished(Err(error)) => assert_eq!(error.message(), "the exchange timed out"),
        other => panic!("{other:?}"),
    }
    let mut exchange = Exchange::begin(true);
    match exchange.step(Event::Synced(vec![tag("t", 3)])) {
        Progress::Finished(Ok(learned)) => assert_eq!(learned[0].generation, 3),
        other => panic!("{other:?}"),
    }
}

#[test]
fn a_tag_nobody_invalidated_is_not_merged() {
    let merged = RefCell::new(Vec::new());
    let applied = apply_merges(
        &vec![tag("never", 0), tag("a", 2), tag("refused", 1), tag("b", 9)],
        |entry| {
            merged.borrow_mut().push(entry.name.clone());
            entry.name != b"refused"
        },
    );
    assert_eq!(applied, 2);
    assert_eq!(*merged.borrow(), [b"a".to_vec(), b"refused".to_vec(), b"b".to_vec()]);
}
