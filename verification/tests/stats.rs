use vash_server::auth::{Auth, AuthState, Limits};
use vash_server::cluster::Cluster;
use vash_server::config::{ClusterConfig, ProtocolConfig};
use vash_server::domain::ServerInfo;
use vash_server::memcached::StatsSection;
use vash_server::metrics::{CommandKind, Dialect, StoreStats};
use vash_server::state::{Binding, ServerState};
use vash_server::stats::{collect, section, Process, Sources};

fn state(required: bool) -> ServerState {
    let limits = Limits {
        timeout_ms: 1,
        max_attempts: 1,
        max_connections: 1,
    };
    let mut cluster = ClusterConfig::default();
    cluster.peers = vec!["a:1".to_string(), "b:1".to_string()];
    ServerState::new(
        ServerInfo {
            protocol_version: 1,
            shards: 4,
            max_key_len: 250,
            max_value_len: 1024,
            capabilities: 0,
            max_tags_per_record: 32,
        },
        ProtocolConfig::default(),
        AuthState::new(Auth::for_test(required, "n", b"hunter2hunter2hu"), limits),
        Cluster::start(&cluster, 0),
        true,
        Binding {
            addr: "127.0.0.1:4000".to_string(),
            ip: "127.0.0.1".to_string(),
            port: 4000,
            max_connections: 1024,
            max_blocking_threads: 64,
            read_buffer: 16384,
        },
    )
}

fn process() -> Process {
    Process {
        pid: 7,
        version: "1.6.38-vash".to_string(),
        pointer_bits: 64,
        uptime_secs: 12,
        unix_secs: 1_700_000_000,
        cluster_mode: "fanout".to_string(),
    }
}

fn value(list: &[(String, String)], name: &str) -> Option<String> {
    list.iter()
        .find(|(key, _)| key == name)
        .map(|(_, value)| value.clone())
}

fn one(state: &ServerState, store: Option<&StoreStats>, which: StatsSection, encrypted: bool) -> Vec<(String, String)> {
    let process = process();
    section(
        &Sources {
            process: &process,
            state,
            store,
            class: "1",
            encrypted,
            now_ms: 0,
        },
        which,
    )
}

#[test]
fn every_counter_is_named_once() {
    for store in [Some(StoreStats::default()), None] {
        let list = collect(&process(), &state(false), store.as_ref());
        let mut names: Vec<&str> = list.iter().map(|(name, _)| name.as_str()).collect();
        names.sort_unstable();
        let count = names.len();
        names.dedup();
        assert_eq!(names.len(), count, "two counters share a name");
        assert_eq!(count, if store.is_some() { 61 } else { 41 });
    }
}

#[test]
fn the_general_counters_are_what_was_counted() {
    let mut state = state(false);
    state.metrics.commands.observe(CommandKind::Get, Dialect::Vcp, 1);
    state.metrics.commands.observe(CommandKind::GetMany, Dialect::Vcp, 1);
    state.metrics.commands.observe(CommandKind::GetAndTouch, Dialect::Vcp, 1);
    state.metrics.commands.observe(CommandKind::SetOne, Dialect::Vcp, 1);
    state.metrics.read(2, 1);
    state.metrics.auth_ok();
    state.metrics.auth_failed();
    state.cluster.exchanged(0, None);
    let store = StoreStats {
        entries: 5,
        utilisation_4: "0.2500".to_string(),
        ..StoreStats::default()
    };
    let list = collect(&process(), &state, Some(&store));
    for (name, expected) in [
        ("pid", "7"),
        ("version", "1.6.38-vash"),
        ("pointer_size", "64"),
        ("uptime", "12"),
        ("time", "1700000000"),
        ("max_connections", "1024"),
        ("cmd_get", "3"),
        ("cmd_set", "1"),
        ("get_hits", "2"),
        ("get_misses", "1"),
        ("auth_cmds", "2"),
        ("auth_errors", "1"),
        ("accepting_conns", "1"),
        ("curr_items", "5"),
        ("vash_utilisation", "0.2500"),
        ("vash_mean_batch", "0.00"),
        ("vash_cluster_mode", "fanout"),
        ("vash_cluster_peers", "2"),
        ("vash_cluster_peers_reachable", "1"),
    ] {
        assert_eq!(value(&list, name).as_deref(), Some(expected), "{name}");
    }
}

#[test]
fn a_store_that_cannot_be_asked_contributes_nothing() {
    let list = collect(&process(), &state(false), None);
    assert_eq!(value(&list, "curr_items"), None);
    assert_eq!(value(&list, "vash_shards"), None);
    assert_eq!(value(&list, "cmd_get").as_deref(), Some("0"));
    assert!(one(&state(false), None, StatsSection::Items, false).is_empty());
    let slabs = one(&state(false), None, StatsSection::Slabs, false);
    assert_eq!(value(&slabs, "active_slabs").as_deref(), Some("1"));
    assert_eq!(value(&slabs, "total_malloced"), None);
}

#[test]
fn the_settings_are_the_ones_in_force() {
    let list = one(&state(true), Some(&StoreStats::default()), StatsSection::Settings, false);
    for (name, expected) in [
        ("maxconns", "1024"),
        ("tcpport", "4000"),
        ("udpport", "0"),
        ("inter", "127.0.0.1"),
        ("auth_enabled_ascii", "yes"),
        ("auth_enabled_sasl", "no"),
        ("flush_enabled", "no"),
        ("dump_enabled", "no"),
        ("lru_crawler", "no"),
        ("cas_enabled", "yes"),
        ("client_flags_size", "4"),
        ("vash_shards", "4"),
        ("vash_inline_reads", "yes"),
        ("item_size_max", "1024"),
        ("maxbytes", "0"),
    ] {
        assert_eq!(value(&list, name).as_deref(), Some(expected), "{name}");
    }
}

/// It describes the connection that asks, not the process that answers.
#[test]
fn ssl_enabled_is_the_connections_own() {
    let state = state(false);
    let yes = one(&state, None, StatsSection::Settings, true);
    assert_eq!(value(&yes, "ssl_enabled").as_deref(), Some("yes"));
    let no = one(&state, None, StatsSection::Settings, false);
    assert_eq!(value(&no, "ssl_enabled").as_deref(), Some("no"));
}

#[test]
fn there_is_one_slab_class() {
    let mut state = state(false);
    state.metrics.read(3, 0);
    state.metrics.commands.observe(CommandKind::SetMany, Dialect::Vcp, 1);
    let store = StoreStats {
        entries: 9,
        evicted: 2,
        map_size: 4096,
        ..StoreStats::default()
    };
    let items = one(&state, Some(&store), StatsSection::Items, false);
    assert_eq!(value(&items, "items:1:number").as_deref(), Some("9"));
    assert_eq!(value(&items, "items:1:evicted").as_deref(), Some("2"));
    let slabs = one(&state, Some(&store), StatsSection::Slabs, false);
    let expected = [
        ("1:get_hits", "3"),
        ("1:cmd_set", "1"),
        ("1:used_chunks", "9"),
        ("active_slabs", "1"),
        ("total_malloced", "4096"),
    ];
    assert_eq!(slabs.len(), expected.len());
    for ((name, value), expected) in slabs.iter().zip(expected) {
        assert_eq!((name.as_str(), value.as_str()), expected);
    }
}

#[test]
fn the_sections_that_have_nothing_to_say() {
    let state = state(false);
    let sizes = one(&state, None, StatsSection::Sizes, false);
    assert_eq!(sizes, [("sizes_status".to_string(), "disabled".to_string())]);
    assert!(one(&state, None, StatsSection::Empty, false).is_empty());
    let general = one(&state, None, StatsSection::General, false);
    assert_eq!(general.len(), 41);
    let conns = one(&state, None, StatsSection::Conns, false);
    assert_eq!(value(&conns, "0:addr").as_deref(), Some("tcp:127.0.0.1:4000"));
}
