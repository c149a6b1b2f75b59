use std::sync::Arc;

use mcp_gateway::config::{Config, McpServerConfig, McpSseConfig, McpStdioConfig};
use mcp_gateway::error::Error;
use mcp_gateway::gate::GateState;
use mcp_gateway::registry::{Lookup, Registry, ServiceRouter};

fn stdio(command: &str) -> McpServerConfig {
    McpServerConfig::from(McpStdioConfig::new(command.to_string(), vec![]))
}

fn config(entries: Vec<(&str, McpServerConfig)>) -> Config {
    let mut config = Config::new();
    for (name, entry) in entries {
        config.servers.insert(name.to_string(), entry);
    }
    config
}

/// Builds and caches a router for `service`, as the first request for it does.
fn warm(registry: &mut Registry<u32>, service: &str, router: u32) -> bool {
    let entry = match registry.lookup(service) {
        Lookup::Miss(entry) => entry.clone(),
        Lookup::Hit(found) => found.config().clone(),
        Lookup::NotFound => return false,
    };
    registry.install(service.to_string(), ServiceRouter::new(Arc::new(entry), router))
}

fn cached(registry: &Registry<u32>) -> Vec<&'static str> {
    ["a", "b", "c"].into_iter().filter(|name| registry.is_cached(name)).collect()
}

#[test]
fn lookup_misses_then_hits() {
    let mut registry: Registry<u32> = Registry::new(config(vec![("svc", stdio("foo"))]));
    assert_eq!(registry.cached_len(), 0);
    match registry.lookup("svc") {
        Lookup::Miss(entry) => assert_eq!(entry, &stdio("foo")),
        other => panic!("expected a miss, got {:?}", other),
    }
    assert!(warm(&mut registry, "svc", 7));
    match registry.lookup("svc") {
        Lookup::Hit(found) => {
            assert_eq!(found.router(), &7);
            assert_eq!(found.config(), &stdio("foo"));
        }
        other => panic!("expected a hit, got {:?}", other),
    }
    assert_eq!(registry.cached_len(), 1);
    assert!(registry.is_cached("svc"));
}

#[test]
fn unknown_service_is_not_found() {
    let registry: Registry<u32> = Registry::new(config(vec![("svc", stdio("foo"))]));
    assert!(matches!(registry.lookup("missing"), Lookup::NotFound));
    assert_eq!(Error::NotFound("missing".to_string()).message(), "Service missing not found");
}

#[test]
fn install_refuses_a_router_built_from_another_description() {
    let mut registry: Registry<u32> = Registry::new(config(vec![("svc", stdio("foo"))]));
    assert!(!registry.install("svc".to_string(), ServiceRouter::new(Arc::new(stdio("bar")), 1)));
    assert!(!registry.install("other".to_string(), ServiceRouter::new(Arc::new(stdio("foo")), 1)));
    assert_eq!(registry.cached_len(), 0);
    assert!(registry.install("svc".to_string(), ServiceRouter::new(Arc::new(stdio("foo")), 1)));
    assert!(registry.install("svc".to_string(), ServiceRouter::new(Arc::new(stdio("foo")), 2)));
    assert_eq!(registry.cached_len(), 1);
    match registry.lookup("svc") {
        Lookup::Hit(found) => assert_eq!(found.router(), &2),
        other => panic!("expected a hit, got {:?}", other),
    }
}

#[test]
fn reload_evicts_changed_and_removed_services() {
    let a = || stdio("A");
    let b = || stdio("B");
    let b_changed = || stdio("B'");
    let mut registry: Registry<u32> = Registry::new(config(vec![("a", a()), ("b", b())]));
    assert!(warm(&mut registry, "a", 1));
    assert!(warm(&mut registry, "b", 2));
    assert_eq!(cached(&registry), vec!["a", "b"]);

    // {a: A, b: B'}: b changed
    let evicted = registry.reload(config(vec![("a", a()), ("b", b_changed())]));
    assert_eq!(evicted, vec!["b".to_string()]);
    assert_eq!(cached(&registry), vec!["a"]);
    assert_eq!(registry.config().servers.get("b"), Some(&b_changed()));

    // {a: A}: b removed, nothing cached for it
    let evicted = registry.reload(config(vec![("a", a())]));
    assert!(evicted.is_empty());
    assert_eq!(cached(&registry), vec!["a"]);
    match registry.lookup("a") {
        Lookup::Hit(found) => assert_eq!(found.router(), &1),
        other => panic!("expected a hit, got {:?}", other),
    }

    // {}: everything goes
    let evicted = registry.reload(Config::new());
    assert_eq!(evicted, vec!["a".to_string()]);
    assert_eq!(cached(&registry), Vec::<&str>::new());
    assert_eq!(registry.cached_len(), 0);
    assert!(matches!(registry.lookup("a"), Lookup::NotFound));
}

#[test]
fn reload_to_an_equal_config_keeps_every_router() {
    let mut registry: Registry<u32> =
        Registry::new(config(vec![("a", stdio("A")), ("b", stdio("B"))]));
    assert!(warm(&mut registry, "a", 1));
    assert!(warm(&mut registry, "b", 2));
    let evicted = registry.reload(config(vec![("b", stdio("B")), ("a", stdio("A"))]));
    assert!(evicted.is_empty());
    assert_eq!(cached(&registry), vec!["a", "b"]);
}

#[test]
fn reload_evicts_a_removed_service_and_keeps_new_ones_uncached() {
    let mut registry: Registry<u32> =
        Registry::new(config(vec![("a", stdio("A")), ("b", stdio("B"))]));
    assert!(warm(&mut registry, "a", 1));
    assert!(warm(&mut registry, "b", 2));
    let evicted = registry.reload(config(vec![("b", stdio("B")), ("c", stdio("C"))]));
    assert_eq!(evicted, vec!["a".to_string()]);
    assert_eq!(cached(&registry), vec!["b"]);
    assert!(matches!(registry.lookup("c"), Lookup::Miss(_)));
}

#[test]
fn an_evicted_service_that_is_still_configured_is_rebuilt() {
    let mut registry: Registry<u32> = Registry::new(config(vec![("a", stdio("A"))]));
    assert!(warm(&mut registry, "a", 1));
    assert_eq!(registry.reload(config(vec![("a", stdio("A2"))])), vec!["a".to_string()]);
    match registry.lookup("a") {
        Lookup::Miss(entry) => assert_eq!(entry, &stdio("A2")),
        other => panic!("expected a miss, got {:?}", other),
    }
    assert!(warm(&mut registry, "a", 2));
    match registry.lookup("a") {
        Lookup::Hit(found) => assert_eq!((found.router(), found.config()), (&2, &stdio("A2"))),
        other => panic!("expected a hit, got {:?}", other),
    }
}

#[test]
fn a_change_of_transport_evicts() {
    let mut registry: Registry<u32> = Registry::new(config(vec![("a", stdio("A"))]));
    assert!(warm(&mut registry, "a", 1));
    let sse = McpServerConfig::from(McpSseConfig::from("http://u".to_string()));
    assert_eq!(registry.reload(config(vec![("a", sse)])), vec!["a".to_string()]);
    assert_eq!(registry.cached_len(), 0);
}

#[test]
fn service_router_makes_unbound_gates_for_its_description() {
    let router = ServiceRouter::new(Arc::new(stdio("foo")), 5u32);
    let gate = router.new_gate();
    assert_eq!(gate.state(), GateState::Unbound);
    assert_eq!(gate.config(), &stdio("foo"));
    let other = router.new_gate();
    assert_eq!(other.state(), GateState::Unbound);
}

#[test]
fn reload_from_text_evicts_like_reload() {
    let mut registry: Registry<u32> =
        Registry::new(config(vec![("a", stdio("A")), ("b", stdio("B"))]));
    assert!(warm(&mut registry, "a", 1));
    assert!(warm(&mut registry, "b", 2));
    let evicted = registry
        .reload_text(
            r#"{"mcpServers":{"a":{"command":"A","args":[]},"b":{"command":"B","args":["x"]}}}"#,
        )
        .unwrap();
    assert_eq!(evicted, vec!["b".to_string()]);
    assert_eq!(cached(&registry), vec!["a"]);
    assert_eq!(
        registry.config().servers.get("b"),
        Some(&McpServerConfig::from(McpStdioConfig::new("B".to_string(), vec!["x".to_string()])))
    );
}

#[test]
fn failed_reload_keeps_config_and_routers() {
    let mut registry: Registry<u32> =
        Registry::new(config(vec![("a", stdio("A")), ("b", stdio("B"))]));
    assert!(warm(&mut registry, "a", 1));
    assert!(warm(&mut registry, "b", 2));
    for broken in ["", "{", "[]", "{}", r#"{"mcpServers":{"a":{"type":"nope"}}}"#] {
        assert!(registry.reload_text(broken).is_err());
        assert_eq!(cached(&registry), vec!["a", "b"]);
        assert_eq!(registry.config().servers.len(), 2);
        assert_eq!(registry.config().servers.get("a"), Some(&stdio("A")));
        assert_eq!(registry.config().servers.get("b"), Some(&stdio("B")));
    }
    assert_eq!(
        registry.reload_text("{}").unwrap_err(),
        mcp_gateway::read::ConfigError::MissingField(mcp_gateway::read::Field::McpServers)
    );
}
