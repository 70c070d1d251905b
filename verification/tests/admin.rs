use vash_server::admin::{health, render_stats, route, status, Page, Refusal};
use vash_server::cluster::Cluster;
use vash_server::config::ClusterConfig;
use vash_server::domain::PeerInfo;
use vash_server::metrics::StoreStats;

#[test]
fn each_page_has_its_path() {
    assert_eq!(route(b"GET /metrics HTTP/1.1\r\nHost: t\r\n\r\n"), Ok(Page::Metrics));
    assert_eq!(route(b"GET /health HTTP/1.1\r\n\r\n"), Ok(Page::Health));
    assert_eq!(route(b"GET /stats HTTP/1.1\r\n\r\n"), Ok(Page::Stats));
    assert_eq!(status(Ok(Page::Stats)), "200 OK");
    assert_eq!(health(), "ok\n");
}

#[test]
fn unknown_paths_and_methods_are_refused() {
    assert_eq!(route(b"GET /nope HTTP/1.1\r\n\r\n"), Err(Refusal::NotFound));
    assert_eq!(route(b"GET /metricsx HTTP/1.1\r\n\r\n"), Err(Refusal::NotFound));
    assert_eq!(route(b"GET"), Err(Refusal::NotFound));
    assert_eq!(route(b"POST /metrics HTTP/1.1\r\n\r\n"), Err(Refusal::MethodNotAllowed));
    assert_eq!(route(b""), Err(Refusal::MethodNotAllowed));
    assert_eq!(status(Err(Refusal::NotFound)), "404 Not Found");
    assert_eq!(status(Err(Refusal::MethodNotAllowed)), "405 Method Not Allowed");
}

#[test]
fn the_stats_page_is_json_with_the_shard_count() {
    let store = StoreStats { shards: 4, entries: 1, ..StoreStats::default() };
    // With no peers there is still a view of the cluster.
    assert_eq!(
        render_stats(&store, "normal", "fanout", &Vec::new()),
        "{\"shards\": 4, \"items\": 1, \"pressure\": \"normal\", \
         \"cluster\": {\"mode\": \"fanout\", \"peers\": []}}\n"
    );
}

#[test]
fn the_stats_page_lists_every_peer() {
    let config = ClusterConfig {
        peers: vec!["10.0.0.1:11311".to_string(), "10.0.0.2:11311".to_string()],
        ..ClusterConfig::default()
    };
    let mut cluster = Cluster::start(&config, 0);
    cluster.exchanged(1, None);
    let page = render_stats(&StoreStats::default(), "normal", "fanout", &cluster.view().peers);
    assert!(
        page.ends_with(
            ", \"cluster\": {\"mode\": \"fanout\", \"peers\": [\
             {\"addr\": \"10.0.0.1:11311\", \"reachable\": false}, \
             {\"addr\": \"10.0.0.2:11311\", \"reachable\": true}]}}\n"
        ),
        "{page}"
    );
}

#[test]
fn the_stats_page_stays_json_whatever_a_peer_is_called() {
    let peers = vec![PeerInfo { addr: "a\"b\\c\n\u{1f}\u{e9}".to_string(), reachable: false }];
    let page = render_stats(&StoreStats::default(), "normal", "fanout", &peers);
    assert!(page.contains("{\"addr\": \"a\\\"b\\\\c\\u000a\\u001f\u{e9}\", "), "{page}");
}
