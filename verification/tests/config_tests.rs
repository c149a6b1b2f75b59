use mcp_gateway::assoc::StrMap;
use mcp_gateway::config::{
    client_identity, ClientIdentity, Config, McpServerConfig, McpSseConfig, McpStdioConfig,
    McpStreamableConfig,
};
use mcp_gateway::read::{ConfigError, Expected, Field};
use mcp_gateway::json::Json;
use mcp_gateway::unexpected::Unexpected;

fn text(s: &str) -> String {
    s.to_string()
}

fn entry(input: &str) -> Result<McpServerConfig, ConfigError> {
    McpServerConfig::parse(input)
}

/// The document with the members of every object in the order of their keys.
fn sorted(document: Json) -> Json {
    match document {
        Json::Array(items) => Json::Array(items.into_iter().map(sorted).collect()),
        Json::Object(members) => {
            let mut members: Vec<(String, Json)> =
                members.into_iter().map(|(k, v)| (k, sorted(v))).collect();
            members.sort_by(|a, b| a.0.cmp(&b.0));
            Json::Object(members)
        }
        other => other,
    }
}

#[test]
fn test_parse_stdio() {
    let input = r#"
        {
            "command": "echo",
            "args": [
                "hello"
            ] 
        }
        "#;

    assert_eq!(
        McpServerConfig::parse(input).unwrap(),
        McpStdioConfig::new("echo".to_string(), vec!["hello".to_string()]).into()
    )
}

#[test]
fn stdio_without_tag_has_no_optional_fields() {
    let parsed = entry(r#"{"command":"echo","args":["hello"]}"#).unwrap();
    match parsed {
        McpServerConfig::Stdio(c) => {
            assert_eq!(c.command(), "echo");
            assert_eq!(c.args(), &vec![text("hello")]);
            assert_eq!(c.cwd(), None);
            assert!(c.env().is_none());
            assert_eq!(c.name(), None);
            assert_eq!(c.description(), None);
        }
        other => panic!("not a stdio entry: {:?}", other),
    }
}

#[test]
fn explicit_stdio_tag_reads_like_no_tag() {
    let tagged = entry(r#"{"type":"stdio","command":"echo","args":[]}"#).unwrap();
    let bare = entry(r#"{"command":"echo","args":[]}"#).unwrap();
    assert_eq!(tagged, bare);
    assert!(matches!(tagged, McpServerConfig::Stdio(_)));
}

#[test]
fn tag_that_is_no_string_counts_as_absent() {
    let parsed = entry(r#"{"type":7,"command":"echo","args":[]}"#).unwrap();
    assert!(matches!(parsed, McpServerConfig::Stdio(_)));
}

#[test]
fn sse_entry_is_read() {
    let parsed = entry(r#"{"type":"sse","url":"http://u/sse","name":"n"}"#).unwrap();
    match parsed {
        McpServerConfig::Sse(c) => {
            assert_eq!(c.url(), "http://u/sse");
            assert_eq!(c.name(), Some("n"));
            assert_eq!(c.description(), None);
        }
        other => panic!("not an sse entry: {:?}", other),
    }
}

#[test]
fn streamable_and_streamable_http_parse_identically() {
    let short = entry(r#"{"type":"streamable","url":"http://u","description":"d"}"#).unwrap();
    let long = entry(r#"{"type":"streamableHttp","url":"http://u","description":"d"}"#).unwrap();
    assert_eq!(short, long);
    match short {
        McpServerConfig::Streamable(c) => {
            assert_eq!(c.url(), "http://u");
            assert_eq!(c.description(), Some("d"));
            assert_eq!(c.name(), None);
        }
        other => panic!("not a streamable entry: {:?}", other),
    }
}

#[test]
fn unknown_tag_names_the_valid_variants() {
    let fault = entry(r#"{"type":"foo","url":"http://u"}"#).unwrap_err();
    assert_eq!(fault, ConfigError::UnknownVariant(text("foo")));
    assert_eq!(
        fault.message(),
        "unknown variant `foo`, expected one of `sse`, `stdio`, `streamable`, `streamableHttp`"
    );
}

#[test]
fn entry_that_is_no_object_reports_what_was_found() {
    let cases: Vec<(&str, Unexpected, &str)> = vec![
        ("true", Unexpected::Bool(true), "invalid type: boolean `true`, expected map"),
        ("false", Unexpected::Bool(false), "invalid type: boolean `false`, expected map"),
        ("12", Unexpected::Number(text("12")), "invalid type: number `12`, expected map"),
        ("\"x\"", Unexpected::Str(text("x")), "invalid type: string \"x\", expected map"),
        ("[1]", Unexpected::Array, "invalid type: sequence, expected map"),
        ("null", Unexpected::Null, "invalid type: null, expected map"),
    ];
    for (input, found, message) in cases {
        let fault = entry(input).unwrap_err();
        assert_eq!(fault, ConfigError::InvalidType { found, expected: Expected::Object });
        assert_eq!(fault.message(), message);
    }
}

#[test]
fn missing_required_fields_are_reported() {
    assert_eq!(entry(r#"{"type":"sse"}"#).unwrap_err(), ConfigError::MissingField(Field::Url));
    assert_eq!(
        entry(r#"{"type":"streamable"}"#).unwrap_err(),
        ConfigError::MissingField(Field::Url)
    );
    assert_eq!(entry(r#"{"args":[]}"#).unwrap_err(), ConfigError::MissingField(Field::Command));
    assert_eq!(
        entry(r#"{"command":"echo"}"#).unwrap_err(),
        ConfigError::MissingField(Field::Args)
    );
    assert_eq!(ConfigError::MissingField(Field::Url).message(), "missing field `url`");
    assert_eq!(ConfigError::MissingField(Field::Command).message(), "missing field `command`");
    assert_eq!(ConfigError::MissingField(Field::Args).message(), "missing field `args`");
    assert_eq!(
        ConfigError::MissingField(Field::McpServers).message(),
        "missing field `mcpServers`"
    );
}

#[test]
fn fields_of_the_wrong_kind_are_reported() {
    assert_eq!(
        entry(r#"{"type":"sse","url":5}"#).unwrap_err(),
        ConfigError::InvalidType {
            found: Unexpected::Number(text("5")),
            expected: Expected::Text
        }
    );
    assert_eq!(
        entry(r#"{"type":"sse","url":null}"#).unwrap_err(),
        ConfigError::InvalidType { found: Unexpected::Null, expected: Expected::Text }
    );
    assert_eq!(
        entry(r#"{"command":"c","args":"x"}"#).unwrap_err(),
        ConfigError::InvalidType {
            found: Unexpected::Str(text("x")),
            expected: Expected::Array
        }
    );
    assert_eq!(
        entry(r#"{"command":"c","args":["a",true,3]}"#).unwrap_err(),
        ConfigError::InvalidType { found: Unexpected::Bool(true), expected: Expected::Text }
    );
    assert_eq!(
        entry(r#"{"command":"c","args":[],"env":[]}"#).unwrap_err(),
        ConfigError::InvalidType { found: Unexpected::Array, expected: Expected::Object }
    );
    assert_eq!(
        entry(r#"{"command":"c","args":[],"env":{"A":{}}}"#).unwrap_err(),
        ConfigError::InvalidType { found: Unexpected::Object, expected: Expected::Text }
    );
    assert_eq!(
        entry(r#"{"command":"c","args":[],"name":[]}"#).unwrap_err(),
        ConfigError::InvalidType { found: Unexpected::Array, expected: Expected::Text }
    );
    assert_eq!(
        ConfigError::InvalidType { found: Unexpected::Array, expected: Expected::Text }.message(),
        "invalid type: sequence, expected a string"
    );
    assert_eq!(
        ConfigError::InvalidType { found: Unexpected::Object, expected: Expected::Array }
            .message(),
        "invalid type: map, expected a sequence"
    );
}

#[test]
fn the_first_faulty_field_is_reported() {
    // name comes before url in the order in which the fields are read
    assert_eq!(
        entry(r#"{"type":"sse","name":1}"#).unwrap_err(),
        ConfigError::InvalidType {
            found: Unexpected::Number(text("1")),
            expected: Expected::Text
        }
    );
}

#[test]
fn null_optional_fields_read_as_absent() {
    let parsed = entry(
        r#"{"command":"c","args":[],"name":null,"description":null,"cwd":null,"env":null}"#,
    )
    .unwrap();
    assert_eq!(parsed, McpStdioConfig::new(text("c"), vec![]).into());
}

#[test]
fn unknown_fields_are_ignored() {
    let parsed = entry(r#"{"type":"sse","url":"u","extra":{"deep":[1,2,3]}}"#).unwrap();
    assert_eq!(parsed, McpServerConfig::Sse(McpSseConfig::from(text("u"))));
}

#[test]
fn full_stdio_entry_is_read() {
    let parsed = entry(
        r#"{"type":"stdio","name":"n","description":"d","command":"run","args":["a","b"],
            "cwd":"/tmp","env":{"A":"1","B":"2"}}"#,
    )
    .unwrap();
    let mut env = StrMap::new();
    env.insert(text("B"), text("2"));
    env.insert(text("A"), text("1"));
    let expected = McpStdioConfig::new(text("run"), vec![text("a"), text("b")])
        .with_name(text("n"))
        .with_description(text("d"))
        .with_cwd(text("/tmp"))
        .with_env(env);
    match &parsed {
        McpServerConfig::Stdio(c) => {
            assert_eq!(c.cwd(), Some("/tmp"));
            assert_eq!(c.name(), Some("n"));
            assert_eq!(c.description(), Some("d"));
            let env = c.env().unwrap();
            assert_eq!(env.len(), 2);
            assert_eq!(env.get("A"), Some(&text("1")));
            assert_eq!(env.get("B"), Some(&text("2")));
            assert_eq!(env.get("C"), None);
        }
        other => panic!("not a stdio entry: {:?}", other),
    }
    assert_eq!(parsed, McpServerConfig::Stdio(expected));
}

#[test]
fn entries_are_equal_iff_all_fields_match() {
    let base = || McpStdioConfig::new(text("run"), vec![text("a")]);
    assert_eq!(McpServerConfig::from(base()), McpServerConfig::from(base()));
    assert_ne!(
        McpServerConfig::from(base()),
        McpServerConfig::from(McpStdioConfig::new(text("run"), vec![text("b")]))
    );
    assert_ne!(
        McpServerConfig::from(base()),
        McpServerConfig::from(McpStdioConfig::new(text("run"), vec![text("a"), text("a")]))
    );
    assert_ne!(
        McpServerConfig::from(base()),
        McpServerConfig::from(McpStdioConfig::new(text("other"), vec![text("a")]))
    );
    assert_ne!(McpServerConfig::from(base()), McpServerConfig::from(base().with_name(text("n"))));
    assert_ne!(
        McpServerConfig::from(base()),
        McpServerConfig::from(base().with_description(text("n")))
    );
    assert_ne!(McpServerConfig::from(base()), McpServerConfig::from(base().with_cwd(text("/"))));
    assert_ne!(
        McpServerConfig::from(base()),
        McpServerConfig::from(base().with_env(StrMap::new()))
    );
    // the same address under another transport is another entry
    assert_ne!(
        McpServerConfig::from(McpSseConfig::from(text("u"))),
        McpServerConfig::from(McpStreamableConfig::from(text("u")))
    );
    assert_ne!(
        McpServerConfig::from(McpSseConfig::from(text("u"))),
        McpServerConfig::from(McpSseConfig::from(text("v")))
    );
}

#[test]
fn environment_is_compared_as_a_map() {
    let mut forward = StrMap::new();
    forward.insert(text("A"), text("1"));
    forward.insert(text("B"), text("2"));
    let mut backward = StrMap::new();
    backward.insert(text("B"), text("2"));
    backward.insert(text("A"), text("1"));
    let mut other = StrMap::new();
    other.insert(text("A"), text("1"));
    other.insert(text("B"), text("3"));
    let mut smaller = StrMap::new();
    smaller.insert(text("A"), text("1"));
    let base = || McpStdioConfig::new(text("run"), vec![]);
    assert_eq!(base().with_env(forward.duplicate()), base().with_env(backward));
    assert_ne!(base().with_env(forward.duplicate()), base().with_env(other));
    assert_ne!(base().with_env(forward), base().with_env(smaller));
}

#[test]
fn clone_gives_an_equal_entry() {
    let mut env = StrMap::new();
    env.insert(text("A"), text("1"));
    let first = McpServerConfig::from(
        McpStdioConfig::new(text("run"), vec![text("a")]).with_name(text("n")).with_env(env),
    );
    assert_eq!(first.clone(), first);
    let remote = McpServerConfig::from(McpSseConfig::from(text("u")));
    assert_eq!(remote.clone(), remote);
}

#[test]
fn to_sse_and_to_streamable_keep_name_and_description() {
    let stdio = McpServerConfig::from(
        McpStdioConfig::new(text("run"), vec![])
            .with_name(text("n"))
            .with_description(text("d")),
    );
    match stdio.to_sse(text("http://h/svc/sse")) {
        McpServerConfig::Sse(c) => {
            assert_eq!(c.url(), "http://h/svc/sse");
            assert_eq!(c.name(), Some("n"));
            assert_eq!(c.description(), Some("d"));
        }
        other => panic!("not an sse entry: {:?}", other),
    }
    match stdio.to_streamable(text("http://h/svc")) {
        McpServerConfig::Streamable(c) => {
            assert_eq!(c.url(), "http://h/svc");
            assert_eq!(c.name(), Some("n"));
            assert_eq!(c.description(), Some("d"));
        }
        other => panic!("not a streamable entry: {:?}", other),
    }
    let bare = McpServerConfig::from(McpStreamableConfig::from(text("x")));
    assert_eq!(bare.name(), None);
    assert_eq!(bare.description(), None);
    assert_eq!(bare.to_sse(text("y")), McpServerConfig::Sse(McpSseConfig::from(text("y"))));
}

#[test]
fn entry_serializes_to_the_flat_tagged_form() {
    let sse = McpServerConfig::from(McpSseConfig::from(text("http://u")));
    assert_eq!(sse.serialize(), Json::parse(r#"{"type":"sse","url":"http://u"}"#).unwrap());
    let streamable = McpServerConfig::from(McpStreamableConfig::from(text("http://u")));
    assert_eq!(
        streamable.serialize(),
        Json::Object(vec![
            (text("type"), Json::Str(text("streamableHttp"))),
            (text("url"), Json::Str(text("http://u"))),
        ])
    );
    let stdio = McpServerConfig::from(
        McpStdioConfig::new(text("run"), vec![text("a")]).with_name(text("n")),
    );
    assert_eq!(
        stdio.serialize(),
        Json::Object(vec![
            (text("type"), Json::Str(text("stdio"))),
            (text("name"), Json::Str(text("n"))),
            (text("command"), Json::Str(text("run"))),
            (text("args"), Json::Array(vec![Json::Str(text("a"))])),
        ])
    );
}

#[test]
fn parse_then_serialize_round_trips() {
    let mut env = StrMap::new();
    env.insert(text("A"), text("1"));
    env.insert(text("B"), text("2"));
    let entries = vec![
        McpServerConfig::from(McpSseConfig::from(text("http://u/sse"))),
        McpServerConfig::from(McpStreamableConfig::from(text("http://u"))),
        McpServerConfig::from(McpStdioConfig::new(text("run"), vec![])),
        McpServerConfig::from(
            McpStdioConfig::new(text("run"), vec![text("a"), text("b")])
                .with_name(text("n"))
                .with_description(text("d"))
                .with_cwd(text("/tmp"))
                .with_env(env),
        ),
        McpServerConfig::from(McpStdioConfig::new(text("run"), vec![]).with_env(StrMap::new())),
    ];
    for first in entries {
        let document = first.serialize();
        let read = McpServerConfig::deserialize(&document).unwrap();
        assert_eq!(read, first);
        assert_eq!(read.serialize(), document);
    }
}

#[test]
fn config_is_read_under_either_key() {
    let a = Config::parse(r#"{"mcpServers":{"svc":{"command":"foo","args":[]}}}"#).unwrap();
    let b = Config::parse(r#"{"servers":{"svc":{"command":"foo","args":[]}}}"#).unwrap();
    for config in [a, b] {
        assert_eq!(config.servers.len(), 1);
        assert_eq!(
            config.servers.get("svc"),
            Some(&McpServerConfig::from(McpStdioConfig::new(text("foo"), vec![])))
        );
        assert!(config.servers.get("other").is_none());
    }
}

#[test]
fn config_faults_are_reported() {
    assert!(matches!(Config::parse("{").unwrap_err(), ConfigError::Syntax(_)));
    assert!(matches!(Config::parse("").unwrap_err(), ConfigError::Syntax(_)));
    assert_eq!(
        Config::parse("{}").unwrap_err(),
        ConfigError::MissingField(Field::McpServers)
    );
    assert_eq!(
        Config::parse(r#"{"mcpServers":{},"servers":{}}"#).unwrap_err(),
        ConfigError::DuplicateField(Field::McpServers)
    );
    assert_eq!(
        ConfigError::DuplicateField(Field::McpServers).message(),
        "duplicate field `mcpServers`"
    );
    assert_eq!(
        Config::parse("[]").unwrap_err(),
        ConfigError::InvalidType { found: Unexpected::Array, expected: Expected::Object }
    );
    assert_eq!(
        Config::parse(r#"{"mcpServers":3}"#).unwrap_err(),
        ConfigError::InvalidType {
            found: Unexpected::Number(text("3")),
            expected: Expected::Object
        }
    );
    assert_eq!(
        Config::parse(r#"{"mcpServers":{"a":{"type":"sse","url":"u"},"b":{"type":"nope"}}}"#)
            .unwrap_err(),
        ConfigError::UnknownVariant(text("nope"))
    );
    let syntax = Config::parse("{").unwrap_err();
    assert!(!syntax.message().is_empty());
}

#[test]
fn empty_config_is_read() {
    let config = Config::parse(r#"{"mcpServers":{}}"#).unwrap();
    assert!(config.servers.is_empty());
    assert_eq!(Config::new().servers.len(), 0);
}

#[test]
fn config_serializes_under_mcp_servers_and_reads_back() {
    let text_form = r#"{"mcpServers":{"a":{"type":"sse","url":"u"},"b":{"type":"stdio","command":"c","args":["x"]}}}"#;
    let config = Config::parse(text_form).unwrap();
    let document = config.serialize();
    assert_eq!(
        document,
        Json::Object(vec![(
            text("mcpServers"),
            Json::Object(vec![
                (
                    text("a"),
                    Json::Object(vec![
                        (text("type"), Json::Str(text("sse"))),
                        (text("url"), Json::Str(text("u"))),
                    ])
                ),
                (
                    text("b"),
                    Json::Object(vec![
                        (text("type"), Json::Str(text("stdio"))),
                        (text("command"), Json::Str(text("c"))),
                        (text("args"), Json::Array(vec![Json::Str(text("x"))])),
                    ])
                ),
            ])
        )])
    );
    // field order aside, this is the document that was read
    assert_eq!(sorted(config.serialize()), sorted(Json::parse(text_form).unwrap()));
    let again = Config::deserialize(&document).unwrap();
    assert_eq!(again.servers.len(), 2);
    assert_eq!(again.servers.get("a"), config.servers.get("a"));
    assert_eq!(again.servers.get("b"), config.servers.get("b"));
}

#[test]
fn later_duplicate_member_wins() {
    let document = Json::Object(vec![
        (text("type"), Json::Str(text("sse"))),
        (text("url"), Json::Str(text("first"))),
        (text("url"), Json::Str(text("second"))),
    ]);
    assert_eq!(
        McpServerConfig::deserialize(&document).unwrap(),
        McpServerConfig::Sse(McpSseConfig::from(text("second")))
    );
}

#[test]
fn client_identity_defaults_when_none_is_given() {
    let own = client_identity(None);
    assert_eq!(own.name, "test sse client");
    assert_eq!(own.version, "0.0.1");
    let given = ClientIdentity { name: text("c"), version: text("1") };
    assert_eq!(client_identity(Some(given.clone())), given);
}
