use vash_server::auth::{Auth, AuthState, LoadError};
use vash_server::config::{Config, Durability, EngineDefaults, EvictionConfig, Watermark};
use vash_server::metrics::ServerMetrics;
use vash_server::server::{
    apply_overrides, asks_for_residency, inline_reads, limits, log_format, reload_credentials,
    Doorkeeper, LogFormat, Overrides, Verdict,
};

fn mark(value: f64) -> Watermark {
    Watermark {
        bits: value.to_bits(),
        text: value.to_string(),
    }
}

fn config() -> Config {
    Config::with_engine(&EngineDefaults {
        max_value_len: 1024,
        max_tags: 10,
        max_tags_per_record: 32,
        reclaim_batch: 1,
        max_batch: 1,
        queue_depth: 1,
        linger_us: 0,
        sync_interval_ms: 1,
        sweep_interval_ms: 1,
        sweep_batch: 1,
        eviction: EvictionConfig {
            soft: mark(0.1),
            hard: mark(0.2),
            critical: mark(0.3),
            batch: 1,
        },
    })
}

fn nothing() -> Overrides {
    Overrides {
        listen: None,
        data: None,
        ephemeral: false,
        enable_flush: false,
        enable_listing: false,
        admin_listen: None,
        disable_memcached: false,
        disable_resp: false,
        peers: Vec::new(),
        require_auth: false,
        auth_file: None,
    }
}

#[test]
fn a_flag_that_is_absent_leaves_the_file_alone() {
    let mut changed = config();
    changed.protocol.flush_enabled = true;
    changed.protocol.resp_enabled = false;
    changed.cluster.peers = vec!["a:1".to_string()];
    changed.store.durability = Durability::Durable;
    let before = format!("{changed:?}");
    apply_overrides(&mut changed, nothing());
    assert_eq!(format!("{changed:?}"), before);
}

#[test]
fn every_flag_changes_what_it_names() {
    let mut changed = config();
    changed.cluster.peers = vec!["old:1".to_string()];
    changed.store.durability = Durability::Durable;
    apply_overrides(
        &mut changed,
        Overrides {
            listen: Some("0.0.0.0:1".to_string()),
            data: Some("/data".to_string()),
            ephemeral: true,
            enable_flush: true,
            enable_listing: true,
            admin_listen: Some("127.0.0.1:9".to_string()),
            disable_memcached: true,
            disable_resp: true,
            peers: vec!["new:1".to_string(), "new:2".to_string()],
            require_auth: true,
            auth_file: Some("creds".to_string()),
        },
    );
    assert_eq!(changed.server.listen, "0.0.0.0:1");
    assert_eq!(changed.store.path, "/data");
    assert_eq!(changed.store.durability, Durability::Lazy);
    assert!(changed.store.wipe_on_start);
    assert!(changed.protocol.flush_enabled);
    assert!(changed.protocol.listing_enabled);
    assert!(!changed.protocol.memcached_enabled);
    assert!(!changed.protocol.resp_enabled);
    assert_eq!(changed.observability.admin_listen, "127.0.0.1:9");
    assert_eq!(changed.cluster.peers, ["new:1", "new:2"]);
    assert!(changed.auth.required);
    assert_eq!(changed.auth.file, "creds");
}

#[test]
fn a_log_format_is_one_of_two() {
    assert_eq!(log_format("json"), Ok(LogFormat::Json));
    assert_eq!(log_format("pretty"), Ok(LogFormat::Pretty));
    assert_eq!(
        log_format("js\"on").unwrap_err(),
        "unknown observability.log_format \"js\\\"on\", expected json or pretty"
    );
}

#[test]
fn strangers_get_a_tenth_unless_told_otherwise() {
    let mut settings = config();
    settings.auth.timeout_ms = 3;
    settings.auth.max_attempts = 4;
    settings.server.max_connections = 1_000;
    settings.auth.max_unauthenticated_connections = 0;
    assert_eq!(limits(&settings).max_connections, 100);
    assert_eq!(limits(&settings).timeout_ms, 3);
    assert_eq!(limits(&settings).max_attempts, 4);
    settings.server.max_connections = 5;
    assert_eq!(limits(&settings).max_connections, 1);
    settings.auth.max_unauthenticated_connections = 7;
    assert_eq!(limits(&settings).max_connections, 7);
}

#[test]
fn residency_has_to_be_earned() {
    let mut store = config().store;
    store.inline_reads = false;
    store.resident_mode = false;
    assert!(!asks_for_residency(&store));
    assert!(!inline_reads(&store, true));
    store.resident_mode = true;
    assert!(asks_for_residency(&store));
    assert!(inline_reads(&store, true));
    assert!(!inline_reads(&store, false));
    store.inline_reads = true;
    assert!(!asks_for_residency(&store));
    assert!(inline_reads(&store, false));
}

#[test]
fn a_failed_reload_keeps_the_table_in_use() {
    let secret = b"hunter2hunter2hu";
    let mut state = AuthState::new(Auth::for_test(true, "n", secret), limits(&config()));
    let failure = reload_credentials(&mut state, Err(LoadError::NothingConfigured));
    assert!(matches!(failure, Some(LoadError::NothingConfigured)));
    assert!(state.current().verify(b"n", secret).is_some());
    assert!(reload_credentials(&mut state, Ok(Auth::default())).is_none());
    assert!(state.current().verify(b"n", secret).is_none());
    assert!(!state.required());
}

#[test]
fn a_connection_past_the_limit_is_refused() {
    let mut metrics = ServerMetrics::default();
    let mut door = Doorkeeper::new(2, 1, false);
    assert_eq!(door.let_in(&mut metrics), Verdict::Admitted { stranger: false });
    assert_eq!(door.let_in(&mut metrics), Verdict::Admitted { stranger: false });
    assert_eq!(door.let_in(&mut metrics), Verdict::AtTheLimit);
    door.closed(false, &mut metrics);
    assert!(!door.drained());
    assert_eq!(door.let_in(&mut metrics), Verdict::Admitted { stranger: false });
    door.closed(false, &mut metrics);
    door.closed(false, &mut metrics);
    assert!(door.drained());
    assert_eq!(metrics.connections_total, 3);
    assert_eq!(metrics.connections_active, 0);
    assert_eq!(metrics.connections_rejected, 1);
    assert_eq!(metrics.auth_capacity_rejected, 0);
}

#[test]
fn strangers_have_a_budget_of_their_own() {
    let mut metrics = ServerMetrics::default();
    let mut door = Doorkeeper::new(10, 2, true);
    assert_eq!(door.let_in(&mut metrics), Verdict::Admitted { stranger: true });
    assert_eq!(door.let_in(&mut metrics), Verdict::Admitted { stranger: true });
    assert_eq!(door.let_in(&mut metrics), Verdict::TooManyStrangers);
    assert_eq!(metrics.auth_capacity_rejected, 1);
    assert_eq!(metrics.connections_rejected, 1);
    // Authenticating gives the place back, and so does leaving.
    door.authenticated();
    assert_eq!(door.let_in(&mut metrics), Verdict::Admitted { stranger: true });
    assert_eq!(door.let_in(&mut metrics), Verdict::TooManyStrangers);
    door.closed(true, &mut metrics);
    assert_eq!(door.let_in(&mut metrics), Verdict::Admitted { stranger: true });
}
