use vash_server::config::{
    Backend, ClientAuth, ClusterConfig, Config, Durability, EngineDefaults, EngineLimits,
    EvictionConfig, FanoutMode, ProtocolConfig, Rule, Watermark,
};
use vash_server::protocol::Protocol;

const ABSOLUTE_MAX_VALUE_LEN: usize = 128 * 1024 * 1024;
const ABSOLUTE_MAX_TAGS: usize = 255;

fn limits() -> EngineLimits {
    EngineLimits {
        min_map_size: 1024 * 1024,
        max_value_len: ABSOLUTE_MAX_VALUE_LEN,
        max_tags_per_record: ABSOLUTE_MAX_TAGS,
        frame_header_len: 12,
    }
}

fn mark(value: f64) -> Watermark {
    Watermark {
        bits: value.to_bits(),
        text: value.to_string(),
    }
}

fn engine() -> EngineDefaults {
    EngineDefaults {
        max_value_len: 8 * 1024 * 1024,
        max_tags: 1_000_000,
        max_tags_per_record: 32,
        reclaim_batch: 256,
        max_batch: 256,
        queue_depth: 1024,
        linger_us: 0,
        sync_interval_ms: 1_000,
        sweep_interval_ms: 1_000,
        sweep_batch: 512,
        eviction: EvictionConfig {
            soft: mark(0.80),
            hard: mark(0.90),
            critical: mark(0.95),
            batch: 256,
        },
    }
}

fn defaults() -> Config {
    Config::with_engine(&engine())
}

fn refused(config: &Config) -> Rule {
    config.validate(&limits(), true).unwrap_err().rule
}

#[test]
fn defaults_are_valid() {
    defaults().validate(&limits(), false).unwrap();
    defaults().validate(&limits(), true).unwrap();
}

#[test]
fn the_admin_endpoint_is_off_until_given_an_address() {
    assert_eq!(defaults().observability.admin_listen, "");
}

#[test]
fn a_tls_listener_is_refused_in_a_build_that_cannot_serve_it() {
    let mut config = defaults();
    config.tls.listen = "0.0.0.0:11312".into();
    config.tls.cert = "cert.pem".into();
    config.tls.key = "key.pem".into();

    let error = config.validate(&limits(), false).expect_err("must not start");
    let message = error.message;
    assert!(
        message.contains("`tls` feature"),
        "the message has to name the feature, since the fix is a rebuild: {message}"
    );
    assert!(
        message.contains("will not fall back"),
        "and it has to say what it is *not* doing: {message}"
    );
    assert!(config.validate(&limits(), true).is_ok());
}

#[test]
fn a_half_configured_tls_section_is_refused() {
    let mut config = defaults();
    config.tls.cert = "cert.pem".into();
    config.tls.key = "key.pem".into();
    assert!(
        config.validate(&limits(), true).is_err(),
        "certificates with no listener serve nobody"
    );
    assert!(config.validate(&limits(), false).is_err());

    let mut config = defaults();
    config.tls.listen = "0.0.0.0:11312".into();
    assert!(
        config.validate(&limits(), true).is_err(),
        "a listener with no certificate has nothing to present"
    );
    assert!(config.validate(&limits(), false).is_err());
}

#[test]
fn dialects_are_served_unless_disabled_and_vcp_always_is() {
    let mut protocol = ProtocolConfig::default();
    assert!(protocol.dialect_enabled(Protocol::Memcached));
    assert!(protocol.dialect_enabled(Protocol::Resp));

    protocol.memcached_enabled = false;
    protocol.resp_enabled = false;
    assert!(!protocol.dialect_enabled(Protocol::Memcached));
    assert!(!protocol.dialect_enabled(Protocol::Resp));
    assert!(
        protocol.dialect_enabled(Protocol::Vcp),
        "a server with no reachable dialect would be unconfigurable"
    );
}

#[test]
fn rejects_a_reader_table_too_small_for_the_blocking_pool() {
    let mut config = defaults();
    config.server.max_blocking_threads = config.store.max_readers as usize;

    let err = config.validate(&limits(), false).unwrap_err().message;
    assert!(err.contains("MDB_READERS_FULL"), "{err}");
}

#[test]
fn rejects_an_oversized_value_limit() {
    let mut config = defaults();
    config.store.max_value_bytes = ABSOLUTE_MAX_VALUE_LEN + 1;
    assert!(config.validate(&limits(), false).is_err());
}

#[test]
fn the_per_record_tag_limit_stays_within_what_the_header_can_describe() {
    let mut config = defaults();
    assert_eq!(
        config.store.tags.max_per_record, 32,
        "the documented default"
    );

    config.store.tags.max_per_record = ABSOLUTE_MAX_TAGS;
    assert!(config.validate(&limits(), false).is_ok(), "the ceiling itself is allowed");

    config.store.tags.max_per_record = ABSOLUTE_MAX_TAGS + 1;
    assert!(config.validate(&limits(), false).is_err());

    config.store.tags.max_per_record = 0;
    assert!(config.validate(&limits(), false).is_err(), "a store that refuses every tag");
}

/// Each setting on its own breaks the rule about it.
#[test]
fn every_rule_refuses_what_breaks_it() {
    let broken: Vec<(Rule, Box<dyn Fn(&mut Config)>)> = vec![
        (Rule::MapSize, Box::new(|c| c.store.map_size_mb = 0)),
        (Rule::Preallocate, Box::new(|c| c.store.preallocate_mb = c.store.map_size_mb + 1)),
        (Rule::MaxReaders, Box::new(|c| c.store.max_readers = 0)),
        (Rule::MaxConnections, Box::new(|c| c.server.max_connections = 0)),
        (Rule::MaxValueBytes, Box::new(|c| c.store.max_value_bytes = usize::MAX)),
        (Rule::ReadBuffer, Box::new(|c| c.server.read_buffer = 11)),
        (Rule::MaxBlockingThreads, Box::new(|c| c.server.max_blocking_threads = 0)),
        (Rule::AuthAttempts, Box::new(|c| c.auth.max_attempts = 0)),
        (Rule::AuthTimeout, Box::new(|c| c.auth.timeout_ms = 0)),
        (Rule::WriteBatch, Box::new(|c| c.store.write.max_batch = 0)),
        (Rule::WriteQueue, Box::new(|c| c.store.write.queue_depth = 0)),
        (Rule::SweepInterval, Box::new(|c| c.store.ttl.sweep_interval_ms = 0)),
        (Rule::SweepBatch, Box::new(|c| c.store.ttl.sweep_batch = 0)),
        (Rule::BucketGranularity, Box::new(|c| c.store.ttl.bucket_granularity_ms = 0)),
        (Rule::MaxTags, Box::new(|c| c.store.tags.max_tags = 0)),
        (Rule::ReclaimBatch, Box::new(|c| c.store.tags.reclaim_batch = 0)),
        (Rule::ListingMaxScan, Box::new(|c| c.protocol.listing_max_scan = 0)),
        (Rule::ScanCursorCount, Box::new(|c| c.protocol.scan_cursors = 0)),
        (Rule::ScanCursorTtl, Box::new(|c| c.protocol.scan_cursor_ttl_ms = 0)),
        (Rule::WatermarkRange, Box::new(|c| c.store.eviction.soft = mark(1.5))),
        (Rule::WatermarkOrder, Box::new(|c| c.store.eviction.soft = mark(0.92))),
        (Rule::EvictionBatch, Box::new(|c| c.store.eviction.batch = 0)),
        (Rule::GossipInterval, Box::new(|c| {
            c.cluster.peers = vec!["a:1".into()];
            c.cluster.gossip_interval_ms = 0;
        })),
        (Rule::FanoutTimeout, Box::new(|c| {
            c.cluster.peers = vec!["a:1".into()];
            c.cluster.fanout_timeout_ms = 0;
        })),
        (Rule::PeerQueue, Box::new(|c| {
            c.cluster.peers = vec!["a:1".into()];
            c.cluster.queue_depth = 0;
        })),
        (Rule::PeerAddress, Box::new(|c| c.cluster.peers = vec!["nowhere".into()])),
    ];
    for (rule, break_it) in broken {
        let mut config = defaults();
        break_it(&mut config);
        let error = config.validate(&limits(), true).unwrap_err();
        assert_eq!(error.rule, rule, "{}", error.message);
        assert!(!error.message.is_empty());
    }
}

#[test]
fn a_clustered_node_with_authentication_needs_a_credential() {
    let mut config = defaults();
    config.auth.required = true;
    config.cluster.peers = vec!["peer:1".into()];
    assert_eq!(refused(&config), Rule::PeerCredential);
    config.cluster.auth_secret = "hunter2hunter2hu".into();
    assert!(config.validate(&limits(), true).is_ok());
    assert_eq!(config.cluster.credential(), Some(("default", "hunter2hunter2hu")));
    config.cluster.auth_name = "node".into();
    assert_eq!(config.cluster.credential(), Some(("node", "hunter2hunter2hu")));
}

#[test]
fn a_watermark_is_compared_as_the_number_it_is() {
    let mut config = defaults();
    config.store.eviction.soft = mark(f64::NAN);
    assert_eq!(refused(&config), Rule::WatermarkRange);
    config.store.eviction.soft = mark(-0.5);
    assert_eq!(refused(&config), Rule::WatermarkRange);
    config.store.eviction.soft = mark(0.899_999);
    assert!(config.validate(&limits(), true).is_ok());
}

#[test]
fn a_peer_is_known_by_its_host_unless_told_otherwise() {
    let mut cluster = ClusterConfig::default();
    assert_eq!(cluster.tls_name_for("node-1.example:11311"), "node-1.example");
    assert_eq!(cluster.tls_name_for("[::1]:11311"), "::1");
    cluster.tls_server_name = "cache".into();
    assert_eq!(cluster.tls_name_for("node-1.example:11311"), "cache");
}

#[test]
fn the_engine_is_opened_with_bytes_and_a_shard_count() {
    let mut config = defaults();
    config.store.map_size_mb = 64;
    config.store.shards = 3;
    assert!(config.has_representable_sizes());
    let engine = config.store_config(Some(16));
    assert_eq!(engine.map_size, 64 * 1024 * 1024);
    assert_eq!(engine.shards, 3);
    config.store.shards = 0;
    assert_eq!(config.shard_count(Some(16)), 2);
    assert_eq!(config.shard_count(Some(1)), 1);
    assert_eq!(config.shard_count(None), 1);
}

#[test]
fn the_settings_nobody_made() {
    let config = defaults();
    assert_eq!(config.store.durability, Durability::Lazy);
    assert_eq!(config.store.backend.as_str(), Backend::default().as_str());
    assert_eq!(config.tls.client_auth, ClientAuth::NotAsked);
    assert!(!config.tls.enabled());
    assert_eq!(config.cluster.delete_by_tag, FanoutMode::Fanout);
    assert_eq!(config.store.map_size_mb, 4096);
}
