use std::sync::Arc;

use mcp_gateway::config::{McpServerConfig, McpStdioConfig};
use mcp_gateway::error::{mcp_err, Error, McpError, INTERNAL_ERROR, NOT_FOUND};
use mcp_gateway::gate::{
    Action, Event, Forwarded, Gate, GateState, Listing, Notification, Reply, Request,
};

fn new_gate() -> Gate {
    Gate::new(Arc::new(McpServerConfig::from(McpStdioConfig::new("foo".to_string(), vec![]))))
}

fn bound_gate() -> Gate {
    let mut gate = new_gate();
    assert_eq!(gate.handle_request(Request::Initialize), Action::Bind);
    assert_eq!(gate.handle(Event::BindSucceeded), Action::ReplyInitializeResult);
    gate
}

const PROXIED: [(Request, Action); 11] = [
    (Request::Complete, Action::Forward(Forwarded::Complete)),
    (Request::SetLevel, Action::Forward(Forwarded::SetLevel)),
    (Request::GetPrompt, Action::Forward(Forwarded::GetPrompt)),
    (Request::ListPrompts, Action::ListAll(Listing::Prompts)),
    (Request::ListResources, Action::ListAll(Listing::Resources)),
    (Request::ListResourceTemplates, Action::ListAll(Listing::ResourceTemplates)),
    (Request::ReadResource, Action::Forward(Forwarded::ReadResource)),
    (Request::Subscribe, Action::Forward(Forwarded::Subscribe)),
    (Request::Unsubscribe, Action::Forward(Forwarded::Unsubscribe)),
    (Request::CallTool, Action::Forward(Forwarded::CallTool)),
    (Request::ListTools, Action::ListAll(Listing::Tools)),
];

#[test]
fn new_gate_is_unbound_and_keeps_its_config() {
    let gate = new_gate();
    assert_eq!(gate.state(), GateState::Unbound);
    assert_eq!(
        gate.config(),
        &McpServerConfig::from(McpStdioConfig::new("foo".to_string(), vec![]))
    );
}

#[test]
fn ping_is_answered_before_initialize() {
    let mut gate = new_gate();
    assert_eq!(gate.handle_request(Request::Ping), Action::ReplyEmpty);
    assert_eq!(gate.state(), GateState::Unbound);
}

#[test]
fn ping_is_answered_in_every_state() {
    let mut gate = new_gate();
    assert_eq!(gate.handle(Event::Request(Request::Ping)), Action::ReplyEmpty);
    gate.handle_request(Request::Initialize);
    assert_eq!(gate.handle(Event::Request(Request::Ping)), Action::ReplyEmpty);
    assert_eq!(gate.state(), GateState::Binding);
    gate.handle(Event::BindSucceeded);
    assert_eq!(gate.handle(Event::Request(Request::Ping)), Action::ReplyEmpty);
    assert_eq!(gate.state(), GateState::Bound);
    gate.handle(Event::UpstreamClosed);
    assert_eq!(gate.handle(Event::Request(Request::Ping)), Action::ReplyEmpty);
    assert_eq!(gate.state(), GateState::Closed);
}

#[test]
fn initialize_binds_and_answers_with_the_upstream_result() {
    let mut gate = new_gate();
    assert_eq!(gate.handle_request(Request::Initialize), Action::Bind);
    assert_eq!(gate.state(), GateState::Binding);
    assert_eq!(gate.handle(Event::BindSucceeded), Action::ReplyInitializeResult);
    assert_eq!(gate.state(), GateState::Bound);
}

#[test]
fn failed_bind_returns_to_unbound_and_may_be_retried() {
    let mut gate = new_gate();
    assert_eq!(gate.handle_request(Request::Initialize), Action::Bind);
    assert_eq!(gate.handle(Event::BindFailed), Action::ReplyBindFailure);
    assert_eq!(gate.state(), GateState::Unbound);
    assert_eq!(gate.handle_request(Request::Initialize), Action::Bind);
    assert_eq!(gate.handle(Event::BindSucceeded), Action::ReplyInitializeResult);
    assert_eq!(gate.state(), GateState::Bound);
}

#[test]
fn factory_is_called_once_per_session() {
    let mut gate = new_gate();
    let mut binds = 0;
    let events = [
        Event::Request(Request::Ping),
        Event::Request(Request::Initialize),
        Event::Request(Request::Initialize),
        Event::BindSucceeded,
        Event::Request(Request::Initialize),
        Event::Request(Request::ListTools),
        Event::Request(Request::Initialize),
        Event::UpstreamClosed,
        Event::Request(Request::Initialize),
    ];
    let mut actions = Vec::new();
    for event in events {
        let action = gate.handle(event);
        if action == Action::Bind {
            binds += 1;
        }
        actions.push(action);
    }
    assert_eq!(binds, 1);
    assert_eq!(
        actions,
        vec![
            Action::ReplyEmpty,
            Action::Bind,
            Action::Reject,
            Action::ReplyInitializeResult,
            Action::ReplyInitializeResult,
            Action::ListAll(Listing::Tools),
            Action::ReplyInitializeResult,
            Action::Release,
            Action::Reject,
        ]
    );
    assert_eq!(gate.state(), GateState::Closed);
}

#[test]
fn requests_before_initialize_are_rejected() {
    for (request, _) in PROXIED {
        let mut gate = new_gate();
        assert_eq!(gate.handle_request(request), Action::Reject);
        assert_eq!(gate.state(), GateState::Unbound);
        gate.handle_request(Request::Initialize);
        assert_eq!(gate.handle_request(request), Action::Reject);
        assert_eq!(gate.state(), GateState::Binding);
    }
    assert_eq!(McpError::from(Error::ProtocolMisuse).code, INTERNAL_ERROR);
}

#[test]
fn bound_gate_forwards_and_lists() {
    for (request, action) in PROXIED {
        let mut gate = bound_gate();
        assert_eq!(gate.handle_request(request), action);
        assert_eq!(gate.state(), GateState::Bound);
    }
}

#[test]
fn closed_gate_rejects_requests() {
    for (request, _) in PROXIED {
        let mut gate = bound_gate();
        assert_eq!(gate.handle(Event::SessionClosed), Action::Release);
        assert_eq!(gate.state(), GateState::Closed);
        assert_eq!(gate.handle_request(request), Action::Reject);
        assert_eq!(gate.handle_request(Request::Initialize), Action::Reject);
        assert_eq!(gate.state(), GateState::Closed);
    }
}

#[test]
fn notifications_are_dropped() {
    for notification in [
        Notification::Cancelled,
        Notification::Progress,
        Notification::Initialized,
        Notification::RootsListChanged,
    ] {
        let mut gate = new_gate();
        assert_eq!(gate.handle_notification(notification), Action::Nothing);
        assert_eq!(gate.state(), GateState::Unbound);
        let mut gate = bound_gate();
        assert_eq!(gate.handle(Event::Notification(notification)), Action::Nothing);
        assert_eq!(gate.state(), GateState::Bound);
    }
}

#[test]
fn events_out_of_place_change_nothing() {
    let mut gate = new_gate();
    assert_eq!(gate.handle(Event::BindSucceeded), Action::Nothing);
    assert_eq!(gate.handle(Event::BindFailed), Action::Nothing);
    assert_eq!(gate.handle(Event::SessionClosed), Action::Nothing);
    assert_eq!(gate.handle(Event::UpstreamClosed), Action::Nothing);
    assert_eq!(gate.state(), GateState::Unbound);
    let mut gate = bound_gate();
    assert_eq!(gate.handle(Event::BindSucceeded), Action::Nothing);
    assert_eq!(gate.handle(Event::BindFailed), Action::Nothing);
    assert_eq!(gate.state(), GateState::Bound);
}

#[test]
fn forwarded_requests_answer_with_result_or_empty() {
    assert_eq!(Forwarded::Complete.reply(), Reply::Result);
    assert_eq!(Forwarded::GetPrompt.reply(), Reply::Result);
    assert_eq!(Forwarded::ReadResource.reply(), Reply::Result);
    assert_eq!(Forwarded::CallTool.reply(), Reply::Result);
    assert_eq!(Forwarded::SetLevel.reply(), Reply::Empty);
    assert_eq!(Forwarded::Subscribe.reply(), Reply::Empty);
    assert_eq!(Forwarded::Unsubscribe.reply(), Reply::Empty);
}

#[test]
fn faults_are_put_into_words() {
    assert_eq!(Error::Io("disk".to_string()).message(), "disk");
    assert_eq!(Error::Transport("refused".to_string()).message(), "Client error: refused");
    assert_eq!(Error::Handshake("eof".to_string()).message(), "eof");
    assert_eq!(Error::Upstream("boom".to_string()).message(), "boom");
    assert_eq!(Error::NotFound("missing".to_string()).message(), "Service missing not found");
    assert_eq!(
        Error::ProtocolMisuse.message(),
        "no upstream client is bound to this session"
    );
    assert_eq!(NOT_FOUND, 404);
}

#[test]
fn session_faults_become_internal_errors() {
    assert_eq!(INTERNAL_ERROR, -32603);
    assert_eq!(
        mcp_err("boom".to_string()),
        McpError { code: -32603, message: "boom".to_string() }
    );
    for fault in [
        Error::Transport("t".to_string()),
        Error::Handshake("h".to_string()),
        Error::Upstream("u".to_string()),
        Error::ProtocolMisuse,
    ] {
        let words = fault.message();
        let reply = McpError::from(fault);
        assert_eq!(reply.code, INTERNAL_ERROR);
        assert_eq!(reply.message, words);
    }
}
