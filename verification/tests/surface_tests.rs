use mcp_gateway::config::{Config, McpServerConfig, McpStdioConfig};
use mcp_gateway::json::Json;
use mcp_gateway::list::{collect_all, Collector, ListData, Page};
use mcp_gateway::router::{mount_prefix, plan_router};
use mcp_gateway::surface::{list_servers, Query};

fn value(document: &Json) -> serde_json::Value {
    match document {
        Json::Null => serde_json::Value::Null,
        Json::Bool(b) => serde_json::Value::Bool(*b),
        Json::Number(n) => serde_json::Value::Number(n.parse().unwrap()),
        Json::Str(s) => serde_json::Value::String(s.clone()),
        Json::Array(items) => serde_json::Value::Array(items.iter().map(value).collect()),
        Json::Object(members) => serde_json::Value::Object(
            members.iter().map(|(k, v)| (k.clone(), value(v))).collect(),
        ),
    }
}

fn body(config: &Config) -> String {
    serde_json::to_string(&value(&config.serialize())).unwrap()
}

fn pairs(query: &[(&str, &str)]) -> Vec<(String, String)> {
    query.iter().map(|(k, v)| (k.to_string(), v.to_string())).collect()
}

fn svc_config() -> Config {
    let mut config = Config::new();
    config.servers.insert(
        "svc".to_string(),
        McpServerConfig::from(McpStdioConfig::new("foo".to_string(), vec![])),
    );
    config
}

#[test]
fn config_introspection_streamable() {
    let query = Query::from_pairs(&pairs(&[]));
    let view = list_servers(&svc_config(), &query, Some("example:9000"));
    assert_eq!(
        body(&view),
        r#"{"mcpServers":{"svc":{"type":"streamableHttp","url":"http://example:9000/svc"}}}"#
    );
}

#[test]
fn config_introspection_sse_https() {
    let query = Query::from_pairs(&pairs(&[("sse", ""), ("https", ""), ("host", "h.example")]));
    assert_eq!(
        query,
        Query { sse: true, https: true, host: Some("h.example".to_string()) }
    );
    let view = list_servers(&svc_config(), &query, Some("example:9000"));
    assert_eq!(
        body(&view),
        r#"{"mcpServers":{"svc":{"type":"sse","url":"https://h.example/svc/sse"}}}"#
    );
}

#[test]
fn introspection_without_any_host_writes_none() {
    let query = Query::from_pairs(&pairs(&[("https", "1")]));
    let view = list_servers(&svc_config(), &query, None);
    assert_eq!(
        body(&view),
        r#"{"mcpServers":{"svc":{"type":"streamableHttp","url":"https:///svc"}}}"#
    );
}

#[test]
fn introspection_keeps_names_descriptions_and_order() {
    let mut config = Config::new();
    config.servers.insert(
        "z".to_string(),
        McpServerConfig::from(
            McpStdioConfig::new("foo".to_string(), vec![])
                .with_name("Zed".to_string())
                .with_description("last letter".to_string()),
        ),
    );
    config.servers.insert(
        "a".to_string(),
        McpServerConfig::from(McpStdioConfig::new("bar".to_string(), vec![])),
    );
    let query = Query { sse: true, https: false, host: None };
    let view = list_servers(&config, &query, Some("gw"));
    assert_eq!(view.servers.len(), 2);
    assert_eq!(view.servers.entry_at(0).unwrap().0, "z");
    assert_eq!(view.servers.entry_at(1).unwrap().0, "a");
    match view.servers.get("z").unwrap() {
        McpServerConfig::Sse(c) => {
            assert_eq!(c.url(), "http://gw/z/sse");
            assert_eq!(c.name(), Some("Zed"));
            assert_eq!(c.description(), Some("last letter"));
        }
        other => panic!("not an sse entry: {:?}", other),
    }
    match view.servers.get("a").unwrap() {
        McpServerConfig::Sse(c) => {
            assert_eq!(c.url(), "http://gw/a/sse");
            assert_eq!(c.name(), None);
        }
        other => panic!("not an sse entry: {:?}", other),
    }
    assert!(list_servers(&Config::new(), &query, None).servers.is_empty());
}

#[test]
fn query_reads_flags_by_presence_and_host_by_last_value() {
    assert_eq!(
        Query::from_pairs(&pairs(&[])),
        Query { sse: false, https: false, host: None }
    );
    assert_eq!(
        Query::from_pairs(&pairs(&[("sse", "false")])),
        Query { sse: true, https: false, host: None }
    );
    assert_eq!(
        Query::from_pairs(&pairs(&[("host", "a"), ("other", "x"), ("host", "b")])),
        Query { sse: false, https: false, host: Some("b".to_string()) }
    );
    assert_eq!(
        Query::from_pairs(&pairs(&[("SSE", ""), ("Https", "")])),
        Query { sse: false, https: false, host: None }
    );
}

#[test]
fn router_plan_has_sse_only_when_enabled() {
    let plain = plan_router("svc", false);
    assert!(plain.sse.is_none());
    assert_eq!(plain.streamable_path, "/");
    let with_sse = plan_router("svc", true);
    assert_eq!(with_sse.streamable_path, "/");
    let endpoints = with_sse.sse.unwrap();
    assert_eq!(endpoints.sse_path, "/sse");
    assert_eq!(endpoints.post_path, "/message");
    assert_eq!(endpoints.advertised_post_path, "/svc/message");
    assert_eq!(plan_router("", true).sse.unwrap().advertised_post_path, "//message");
}

#[test]
fn mount_prefix_ends_with_the_service_name() {
    assert_eq!(mount_prefix("/svc", "svc"), Some("/svc".to_string()));
    assert_eq!(mount_prefix("/svc/sse", "svc"), Some("/svc".to_string()));
    assert_eq!(mount_prefix("/svc/message", "svc"), Some("/svc".to_string()));
    assert_eq!(mount_prefix("/base/svc/x/svc", "svc"), Some("/base/svc".to_string()));
    assert_eq!(mount_prefix("/a/ab", "ab"), Some("/a/ab".to_string()));
    assert_eq!(mount_prefix("/aab", "ab"), Some("/aab".to_string()));
    assert_eq!(mount_prefix("/\u{e9}t\u{e9}/x", "\u{e9}t\u{e9}"), Some("/\u{e9}t\u{e9}".to_string()));
    assert_eq!(mount_prefix("/svc", ""), Some("".to_string()));
    assert_eq!(mount_prefix("", ""), Some("".to_string()));
}

#[test]
fn mount_prefix_is_none_when_the_name_is_not_in_the_path() {
    assert_eq!(mount_prefix("/other", "svc"), None);
    assert_eq!(mount_prefix("/sv", "svc"), None);
    assert_eq!(mount_prefix("", "svc"), None);
    assert_eq!(mount_prefix("/a%20b", "a b"), None);
}

#[test]
fn list_data_counts_its_items() {
    let list = ListData::new(vec![3, 1, 2]);
    assert_eq!(list.count, 3);
    assert_eq!(list.data, vec![3, 1, 2]);
    let empty: ListData<u8> = Vec::new().into();
    assert_eq!(empty.count, 0);
    assert!(empty.data.is_empty());
    let from: ListData<&str> = ListData::from(vec!["a"]);
    assert_eq!((from.count, from.data), (1, vec!["a"]));
}

fn page(items: &[&str], next: Option<&str>) -> Page<String> {
    Page {
        items: items.iter().map(|s| s.to_string()).collect(),
        next_cursor: next.map(|s| s.to_string()),
    }
}

#[test]
fn paged_list_is_collected_in_order() {
    let reply = collect_all(vec![
        page(&["t1", "t2"], Some("c1")),
        page(&[], Some("c2")),
        page(&["t3"], Some("c3")),
        page(&["t4", "t5"], None),
    ]);
    assert_eq!(reply.items, vec!["t1", "t2", "t3", "t4", "t5"]);
    assert_eq!(reply.next_cursor, None);
}

#[test]
fn collection_stops_at_the_first_page_without_cursor() {
    let reply = collect_all(vec![page(&["a"], None), page(&["b"], None)]);
    assert_eq!(reply.items, vec!["a"]);
    assert_eq!(reply.next_cursor, None);
    let reply = collect_all(Vec::<Page<String>>::new());
    assert!(reply.items.is_empty());
    assert_eq!(reply.next_cursor, None);
    let reply = collect_all(vec![page(&["a"], Some("c"))]);
    assert_eq!(reply.items, vec!["a"]);
    assert_eq!(reply.next_cursor, None);
}

#[test]
fn collector_hands_back_the_next_cursor() {
    let mut collector: Collector<String> = Collector::new();
    assert_eq!(collector.accept(page(&["a"], Some("c1"))), Some("c1".to_string()));
    assert_eq!(collector.accept(page(&["b", "c"], None)), None);
    let reply = collector.finish();
    assert_eq!(reply.items, vec!["a", "b", "c"]);
    assert_eq!(reply.next_cursor, None);
}
