use vash_server::connections::{ConnInfo, Registry};
use vash_server::protocol::Protocol;

const LISTEN: &str = "0.0.0.0:11211";

fn peer(port: u16) -> String {
    format!("127.0.0.1:{port}")
}

fn field<'a>(rendered: &'a [(String, String)], name: &str) -> Option<&'a str> {
    rendered
        .iter()
        .find(|(key, _)| key == name)
        .map(|(_, value)| value.as_str())
}

/// What the registry knows of a connection, to be changed and handed back.
fn info(registry: &Registry, id: u64) -> ConnInfo {
    let known = registry.get(id).unwrap();
    ConnInfo {
        id: known.id,
        peer: known.peer.clone(),
        dialect: known.dialect,
        authenticated: known.authenticated,
        tls: known.tls,
        last_command_ms: known.last_command_ms,
    }
}

#[test]
fn a_connection_appears_while_it_is_open_and_not_after() {
    let mut registry = Registry::default();
    let id = registry.open(&peer(5000), 0);

    let rendered = registry.render(LISTEN, 0);
    assert_eq!(
        field(&rendered, &format!("{id}:addr")),
        Some("tcp:127.0.0.1:5000")
    );
    assert_eq!(
        field(&rendered, &format!("{id}:listen_addr")),
        Some("tcp:0.0.0.0:11211")
    );

    registry.close(id);
    assert_eq!(registry.len(), 0);
    assert!(field(&registry.render(LISTEN, 0), &format!("{id}:addr")).is_none());
}

#[test]
fn ids_are_never_reused() {
    let mut registry = Registry::default();
    let first = registry.open(&peer(5000), 0);
    registry.close(first);
    let second = registry.open(&peer(5001), 0);

    assert_ne!(first, second);
    assert!(second > first);
}

#[test]
fn the_listener_is_always_reported() {
    let registry = Registry::default();
    let rendered = registry.render(LISTEN, 0);
    assert_eq!(field(&rendered, "0:addr"), Some("tcp:0.0.0.0:11211"));
    assert_eq!(field(&rendered, "0:state"), Some("conn_listening"));
}

#[test]
fn a_dialect_is_unknown_until_a_byte_has_arrived() {
    let mut registry = Registry::default();
    let id = registry.open(&peer(5000), 0);
    assert_eq!(
        field(&registry.render(LISTEN, 0), &format!("{id}:vash_dialect")),
        Some("unknown"),
        "detection needs a byte, and none has been sent"
    );

    for (protocol, name) in [
        (Protocol::Vcp, "vcp"),
        (Protocol::Memcached, "memcached"),
        (Protocol::Resp, "resp"),
    ] {
        let mut known = info(&registry, id);
        known.dialect_chosen(protocol);
        registry.update(known);
        assert_eq!(
            field(&registry.render(LISTEN, 0), &format!("{id}:vash_dialect")),
            Some(name)
        );
    }
}

#[test]
fn authentication_is_reported_once_it_has_happened() {
    let mut registry = Registry::default();
    let id = registry.open(&peer(5000), 0);
    let authenticated = |registry: &Registry| {
        field(
            &registry.render(LISTEN, 0),
            &format!("{id}:vash_authenticated"),
        )
        .map(str::to_owned)
    };

    assert_eq!(authenticated(&registry).as_deref(), Some("no"));
    let mut known = info(&registry, id);
    known.authenticated();
    registry.update(known);
    assert_eq!(authenticated(&registry).as_deref(), Some("yes"));
}

#[test]
fn a_command_resets_the_idle_clock() {
    let mut registry = Registry::default();
    let id = registry.open(&peer(5000), 0);
    let mut known = info(&registry, id);
    known.touched(5);
    registry.update(known);

    assert_eq!(
        field(
            &registry.render(LISTEN, 5),
            &format!("{id}:secs_since_last_cmd")
        ),
        Some("0")
    );
    assert_eq!(
        field(
            &registry.render(LISTEN, 7_004),
            &format!("{id}:secs_since_last_cmd")
        ),
        Some("6")
    );
}

#[test]
fn connections_are_listed_by_id() {
    let mut registry = Registry::default();
    let ids: Vec<u64> = (0..5).map(|i| registry.open(&peer(6000 + i), 0)).collect();
    registry.close(ids[2]);
    registry.close(99);
    let listed: Vec<String> = registry
        .render(LISTEN, 0)
        .into_iter()
        .map(|(name, _)| name)
        .filter(|name| name.ends_with(":addr"))
        .collect();
    assert_eq!(listed, ["0:addr", "1:addr", "2:addr", "4:addr", "5:addr"]);
    assert_eq!(registry.len(), 4);
}

#[test]
fn an_encrypted_connection_is_marked() {
    let mut registry = Registry::default();
    let id = registry.open(&peer(1), 0);
    let other = registry.open(&peer(2), 0);
    let mut known = info(&registry, id);
    assert!(!known.is_tls());
    known.tls_established();
    assert!(known.is_tls());
    registry.update(known);
    let rendered = registry.render(LISTEN, 0);
    assert_eq!(field(&rendered, &format!("{id}:vash_tls")), Some("yes"));
    assert_eq!(field(&rendered, &format!("{other}:vash_tls")), Some("no"));
}

#[test]
fn a_closed_connection_is_not_updated() {
    let mut registry = Registry::default();
    let id = registry.open(&peer(1), 0);
    let known = info(&registry, id);
    registry.close(id);
    registry.update(known);
    assert_eq!(registry.len(), 0);
    assert!(registry.get(id).is_none());
    assert!(registry.can_open());
}
