use vash_server::domain::{
    BatchGuard, Command, Key, Reply, SetMode, SetRequest, Stored, TtlChange, Value,
};
use vash_server::metrics::{
    render_prometheus, ClusterMetrics, CommandKind, Dialect, ErrorClass, Histogram, OutcomeMetrics,
    ServerMetrics, StoreStats,
};

fn rendered(metrics: &ServerMetrics) -> String {
    render_prometheus(
        metrics,
        &StoreStats::default(),
        &mut ClusterMetrics::default(),
        0,
        0,
    )
}

#[test]
fn observe_has_nothing_to_say_about_a_get() {
    let mut metrics = ServerMetrics::default();
    let before = rendered(&metrics);

    let key = Key::new(b"k", 250).unwrap();
    let value = Value {
        data: b"v".to_vec(),
        mc_flags: 0,
        cas: 1,
        expires_at_ms: Some(0),
    };
    metrics
        .outcomes
        .observe(&Command::Get { key }, &Reply::Value(value));
    metrics
        .outcomes
        .observe(&Command::Get { key }, &Reply::NotFound);

    assert_eq!(
        before,
        rendered(&metrics),
        "observe now counts something for a GET, which the fused read path bypasses"
    );
}

#[test]
fn every_series_is_typed_and_documented() {
    let mut metrics = ServerMetrics::default();
    metrics.connection_opened();
    metrics.read(3, 1);
    metrics.error(ErrorClass::Capacity);

    let rendered = rendered(&metrics);

    for line in rendered.lines().filter(|l| !l.starts_with('#')) {
        let series = line
            .split(['{', ' '])
            .next()
            .expect("a sample line has a name");
        let family = ["_bucket", "_sum", "_count"]
            .iter()
            .find_map(|suffix| series.strip_suffix(suffix))
            .filter(|family| rendered.contains(&format!("# TYPE {family} histogram")))
            .unwrap_or(series);
        assert!(
            rendered.contains(&format!("# TYPE {family} ")),
            "{series} is emitted without a TYPE line"
        );
        assert!(
            rendered.contains(&format!("# HELP {family} ")),
            "{series} is emitted without a HELP line"
        );
    }
}

#[test]
fn counters_record_what_happened() {
    let mut metrics = ServerMetrics::default();
    metrics.read(2, 1);
    metrics.write();
    metrics.error(ErrorClass::Overloaded);

    let mut cluster = ClusterMetrics::default();
    cluster.peers_configured(3, 0);
    cluster.fanout_sent(0);
    cluster.fanout_failed();
    cluster.merged(4);

    let rendered = render_prometheus(&metrics, &StoreStats::default(), &mut cluster, 2, 0);
    assert!(rendered.contains("vash_hits_total 2"), "{rendered}");
    assert!(rendered.contains("vash_misses_total 1"));
    assert!(rendered.contains("vash_writes_total 1"));
    assert!(rendered.contains("vash_errors_total{class=\"overloaded\"} 1"));
    assert!(rendered.contains("vash_errors_total{class=\"internal\"} 0"));
    assert!(rendered.contains("vash_cluster_peers 3"));
    assert!(rendered.contains("vash_cluster_peers_reachable 2"));
    assert!(rendered.contains("vash_cluster_fanout_total 1"));
    assert!(rendered.contains("vash_cluster_fanout_failures_total 1"));
    assert!(rendered.contains("vash_cluster_merged_total 4"));
}

#[test]
fn a_node_that_has_never_reached_a_peer_does_not_report_zero_age() {
    let mut cluster = ClusterMetrics::default();
    cluster.peers_configured(1, 100);
    assert!(cluster.since_last_exchange_ms(105) > 0);
    assert_eq!(cluster.since_last_exchange_ms(105), 5);

    cluster.gossip_round(105);
    assert!(cluster.since_last_exchange_ms(105) < 5);
    assert_eq!(cluster.since_last_exchange_ms(112), 7);
}

#[test]
fn histogram_buckets_are_cumulative() {
    let mut histogram = Histogram::default();
    histogram.observe(5); // first bucket
    histogram.observe(300); // 500us bucket
    histogram.observe(1_000_000); // overflow

    let mut out = String::new();
    histogram.render(&mut out, "test_seconds", "");

    assert!(
        out.contains("test_seconds_bucket{le=\"0.00001\"} 1"),
        "{out}"
    );
    assert!(
        out.contains("test_seconds_bucket{le=\"0.0005\"} 2"),
        "{out}"
    );
    assert!(out.contains("test_seconds_bucket{le=\"0.1\"} 2"), "{out}");
    assert!(out.contains("test_seconds_bucket{le=\"+Inf\"} 3"), "{out}");
    assert!(out.contains("test_seconds_count{} 3"), "{out}");
}

#[test]
fn a_command_is_counted_against_its_dialect_and_timed_once() {
    let mut metrics = ServerMetrics::default();
    metrics.commands.observe(CommandKind::Get, Dialect::Resp, 20);
    metrics.commands.observe(CommandKind::Get, Dialect::Vcp, 20);

    let rendered = rendered(&metrics);
    assert!(rendered.contains("vash_command_total{command=\"get\",dialect=\"resp\"} 1"));
    assert!(rendered.contains("vash_command_total{command=\"get\",dialect=\"vcp\"} 1"));
    assert!(rendered.contains("vash_command_total{command=\"set\",dialect=\"vcp\"} 0"));
    assert!(rendered.contains("vash_command_seconds_count{command=\"get\"} 2"));
}

#[test]
fn command_kind_names_are_distinct() {
    let mut names: Vec<&str> = CommandKind::all().iter().map(|kind| kind.name()).collect();
    names.sort_unstable();
    let count = names.len();
    names.dedup();
    assert_eq!(names.len(), count, "two command kinds share a name");
}

#[test]
fn every_command_kind_has_its_own_slot() {
    for (expected, kind) in CommandKind::all().iter().enumerate() {
        assert_eq!(kind.index(), expected, "{kind:?} is at the wrong index");
    }
}

#[test]
fn the_reader_age_and_writer_split_are_rendered() {
    let store = StoreStats {
        oldest_reader_age_ms: 4_200,
        queue_wait_us: 1_500_000,
        commit_us: 500_000,
        ..StoreStats::default()
    };
    let rendered = render_prometheus(
        &ServerMetrics::default(),
        &store,
        &mut ClusterMetrics::default(),
        0,
        0,
    );
    assert!(
        rendered.contains("vash_oldest_reader_age_ms 4200"),
        "{rendered}"
    );
    assert!(rendered.contains("vash_writer_queue_wait_seconds_total 1.500000"));
    assert!(rendered.contains("vash_writer_commit_seconds_total 0.500000"));
}

#[test]
fn a_bound_belongs_to_the_bucket_it_closes() {
    let mut histogram = Histogram::default();
    histogram.observe(10);
    histogram.observe(11);
    let mut out = String::new();
    histogram.render(&mut out, "t", "command=\"get\",");
    assert!(out.contains("t_bucket{command=\"get\",le=\"0.00001\"} 1"), "{out}");
    assert!(out.contains("t_bucket{command=\"get\",le=\"0.000025\"} 2"), "{out}");
    assert!(out.contains("t_sum{command=\"get\"} 0.000021"), "{out}");
    assert!(out.contains("t_count{command=\"get\"} 2"), "{out}");
}

#[test]
fn seconds_are_rendered_to_the_microsecond() {
    for (us, text) in [
        (0u128, "0.000000"),
        (1, "0.000001"),
        (999_999, "0.999999"),
        (12_345_678, "12.345678"),
    ] {
        let mut histogram = Histogram::default();
        histogram.observe(us);
        let mut out = String::new();
        histogram.render(&mut out, "t", "");
        assert!(out.contains(&format!("t_sum{{}} {text}")), "{out}");
        assert_eq!(text, format!("{:.6}", us as f64 / 1e6));
    }
}

#[test]
fn opening_and_closing_leaves_nothing_active() {
    let mut metrics = ServerMetrics::default();
    metrics.connection_opened();
    metrics.connection_opened();
    metrics.connection_closed();
    metrics.connection_rejected();
    assert_eq!(metrics.connections_total, 2);
    assert_eq!(metrics.connections_active, 1);
    assert_eq!(metrics.connections_rejected, 1);
}

#[test]
fn each_error_class_has_its_counter() {
    let mut metrics = ServerMetrics::default();
    metrics.error(ErrorClass::Client);
    metrics.error(ErrorClass::Capacity);
    metrics.error(ErrorClass::Overloaded);
    metrics.error(ErrorClass::Internal);
    metrics.error(ErrorClass::Internal);
    assert_eq!(metrics.errors_client, 1);
    assert_eq!(metrics.errors_capacity, 1);
    assert_eq!(metrics.errors_overloaded, 1);
    assert_eq!(metrics.errors_internal, 2);
}

#[test]
fn authentication_is_counted_by_what_became_of_it() {
    let mut metrics = ServerMetrics::default();
    metrics.auth_ok();
    metrics.auth_failed();
    metrics.auth_failed();
    metrics.auth_refused();
    metrics.auth_timeout();
    metrics.auth_capacity_rejected();
    assert_eq!(metrics.auth_ok, 1);
    assert_eq!(metrics.auth_failed, 2);
    assert_eq!(metrics.auth_refused, 1);
    assert_eq!(metrics.auth_timeouts, 1);
    assert_eq!(metrics.auth_capacity_rejected, 1);
}

#[test]
fn deletes_are_split_into_hits_and_misses() {
    let mut outcomes = OutcomeMetrics::default();
    let key = Key::new(b"k", 250).unwrap();
    outcomes.observe(&Command::Delete { key }, &Reply::Deleted);
    outcomes.observe(&Command::Delete { key }, &Reply::NotFound);
    outcomes.observe(
        &Command::DeleteMany(vec![key, key, key]),
        &Reply::DeletedMany(vec![true, false, true]),
    );
    assert_eq!(outcomes.delete_hits, 3);
    assert_eq!(outcomes.delete_misses, 2);
}

#[test]
fn a_stored_item_is_counted() {
    let mut outcomes = OutcomeMetrics::default();
    let batch = Command::SetMany { sets: Vec::new(), guard: BatchGuard::Always };
    outcomes.observe(&batch, &Reply::StoredMany(vec![1, 2]));
    assert_eq!(outcomes.total_items, 2);
    outcomes.observe(&Command::Ping, &Reply::Stored(Stored::Stored(1)));
    assert_eq!(outcomes.total_items, 3);
    outcomes.observe(&Command::Ping, &Reply::Stored(Stored::NotStored));
    assert_eq!(outcomes.total_items, 3);
}

#[test]
fn an_applied_guarded_batch_stored_every_write_of_it() {
    for guard in [BatchGuard::IfAllAbsent, BatchGuard::IfAllPresent] {
        let set = |key: &'static [u8]| SetRequest {
            key: Key::new(key, 250).unwrap(),
            value: b"v",
            ttl: TtlChange::To(0),
            mc_flags: 0,
            tags: Vec::new(),
            mode: SetMode::Always,
            return_previous: false,
        };
        let batch = Command::SetMany { sets: vec![set(b"a"), set(b"b"), set(b"c")], guard };
        let mut outcomes = OutcomeMetrics::default();
        outcomes.observe(&batch, &Reply::StoredMany(Vec::new()));
        assert_eq!(outcomes.total_items, 3);
        // Rejected, so nothing was stored.
        outcomes.observe(&batch, &Reply::Stored(Stored::NotStored));
        assert_eq!(outcomes.total_items, 3);
    }
}
