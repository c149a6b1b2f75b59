//! The proxy that stands between one inbound session and the
//! upstream client of its service.
//!
//! A gate decides; it does not talk. Each thing that happens to the session
//! is handed to it as an [`Event`], and it answers with the [`Action`] that
//! the caller has to carry out. The upstream client is created on the first
//! `initialize` and on no other occasion.

use crate::config::McpServerConfig;
use std::sync::Arc;
use vstd::prelude::*;

verus! {

/// Where a session stands with its upstream client.
#[derive(Debug, Clone, Copy, PartialEq, Eq, Structural)]
pub enum GateState {
    /// No upstream client exists.
    Unbound,
    /// The client factory is at work.
    Binding,
    /// The upstream client is ready.
    Bound,
    /// The session or the upstream transport has ended.
    Closed,
}

/// A request of the inbound client.
#[derive(Debug, Clone, Copy, PartialEq, Eq, Structural)]
pub enum Request {
    Initialize,
    Ping,
    Complete,
    SetLevel,
    GetPrompt,
    ListPrompts,
    ListResources,
    ListResourceTemplates,
    ReadResource,
    Subscribe,
    Unsubscribe,
    CallTool,
    ListTools,
}

/// A notification of the inbound client.
#[derive(Debug, Clone, Copy, PartialEq, Eq, Structural)]
pub enum Notification {
    Cancelled,
    Progress,
    Initialized,
    RootsListChanged,
}

/// A request that is handed to the upstream with its parameters unchanged.
#[derive(Debug, Clone, Copy, PartialEq, Eq, Structural)]
pub enum Forwarded {
    Complete,
    SetLevel,
    GetPrompt,
    ReadResource,
    Subscribe,
    Unsubscribe,
    CallTool,
}

/// A list that is asked of the upstream page by page and answered whole.
#[derive(Debug, Clone, Copy, PartialEq, Eq, Structural)]
pub enum Listing {
    Prompts,
    Resources,
    ResourceTemplates,
    Tools,
}

/// What happens to a session.
#[derive(Debug, Clone, Copy, PartialEq, Eq, Structural)]
pub enum Event {
    /// The inbound client sent a request.
    Request(Request),
    /// The inbound client sent a notification.
    Notification(Notification),
    /// The client factory returned an upstream client.
    BindSucceeded,
    /// The client factory failed.
    BindFailed,
    /// The inbound session ended.
    SessionClosed,
    /// The upstream transport ended.
    UpstreamClosed,
}

/// What the caller of a gate has to do.
#[derive(Debug, Clone, Copy, PartialEq, Eq, Structural)]
pub enum Action {
    /// Call the client factory with the inbound peer's client info, and tell
    /// this proxy how it ended.
    Bind,
    /// Answer `initialize` with the upstream's initialize result, or with an
    /// empty default where the upstream gave none.
    ReplyInitializeResult,
    /// Answer `initialize` with the factory's fault as an internal error.
    ReplyBindFailure,
    /// Answer with an empty result; the upstream is not asked.
    ReplyEmpty,
    /// Hand the request to the upstream and answer as [`Forwarded::reply`]
    /// says.
    Forward(Forwarded),
    /// Ask the upstream for the whole list and answer with it, without a
    /// cursor.
    ListAll(Listing),
    /// Answer with an internal error: no upstream client is bound.
    Reject,
    /// Let go of the upstream client.
    Release,
    /// Nothing.
    Nothing,
}

/// What is answered when a forwarded request has come back.
#[derive(Debug, Clone, Copy, PartialEq, Eq, Structural)]
pub enum Reply {
    /// The upstream's result, as it came.
    Result,
    /// An empty result.
    Empty,
}

impl Forwarded {
    /// What the inbound client is answered once the upstream has answered.
    pub open spec fn reply_spec(self) -> Reply {
        match self {
            Forwarded::Complete => Reply::Result,
            Forwarded::SetLevel => Reply::Empty,
            Forwarded::GetPrompt => Reply::Result,
            Forwarded::ReadResource => Reply::Result,
            Forwarded::Subscribe => Reply::Empty,
            Forwarded::Unsubscribe => Reply::Empty,
            Forwarded::CallTool => Reply::Result,
        }
    }

    /// What the inbound client is answered once the upstream has answered:
    /// the upstream's result, or an empty result for the requests that only
    /// acknowledge.
    #[verifier::when_used_as_spec(reply_spec)]
    pub fn reply(self) -> (r: Reply)
        ensures
            r == self.reply_spec(),
    {
        match self {
            Forwarded::Complete => Reply::Result,
            Forwarded::SetLevel => Reply::Empty,
            Forwarded::GetPrompt => Reply::Result,
            Forwarded::ReadResource => Reply::Result,
            Forwarded::Subscribe => Reply::Empty,
            Forwarded::Unsubscribe => Reply::Empty,
            Forwarded::CallTool => Reply::Result,
        }
    }
}

/// How a request is served by a bound upstream.
pub open spec fn proxied(request: Request) -> Action {
    match request {
        Request::Initialize => Action::ReplyInitializeResult,
        Request::Ping => Action::ReplyEmpty,
        Request::Complete => Action::Forward(Forwarded::Complete),
        Request::SetLevel => Action::Forward(Forwarded::SetLevel),
        Request::GetPrompt => Action::Forward(Forwarded::GetPrompt),
        Request::ListPrompts => Action::ListAll(Listing::Prompts),
        Request::ListResources => Action::ListAll(Listing::Resources),
        Request::ListResourceTemplates => Action::ListAll(Listing::ResourceTemplates),
        Request::ReadResource => Action::Forward(Forwarded::ReadResource),
        Request::Subscribe => Action::Forward(Forwarded::Subscribe),
        Request::Unsubscribe => Action::Forward(Forwarded::Unsubscribe),
        Request::CallTool => Action::Forward(Forwarded::CallTool),
        Request::ListTools => Action::ListAll(Listing::Tools),
    }
}

/// The state after a request, and what is done about it.
///
/// `ping` is answered in every state. The first `initialize` starts the
/// binding; once bound, `initialize` is answered from the client that is
/// there. Every other request needs a bound upstream and is rejected
/// without one.
pub open spec fn on_request(state: GateState, request: Request) -> (GateState, Action) {
    match request {
        Request::Ping => (state, Action::ReplyEmpty),
        Request::Initialize => match state {
            GateState::Unbound => (GateState::Binding, Action::Bind),
            GateState::Bound => (GateState::Bound, Action::ReplyInitializeResult),
            _ => (state, Action::Reject),
        },
        _ => if state == GateState::Bound {
            (state, proxied(request))
        } else {
            (state, Action::Reject)
        },
    }
}

/// The state after an event, and what is done about it.
///
/// Notifications are accepted and dropped. The end of the factory's work
/// counts only while a binding is under way, the end of the session or of the
/// upstream only while it is bound; elsewhere they change nothing.
pub open spec fn step(state: GateState, event: Event) -> (GateState, Action) {
    match event {
        Event::Request(request) => on_request(state, request),
        Event::Notification(_) => (state, Action::Nothing),
        Event::BindSucceeded => if state == GateState::Binding {
            (GateState::Bound, Action::ReplyInitializeResult)
        } else {
            (state, Action::Nothing)
        },
        Event::BindFailed => if state == GateState::Binding {
            (GateState::Unbound, Action::ReplyBindFailure)
        } else {
            (state, Action::Nothing)
        },
        Event::SessionClosed => if state == GateState::Bound {
            (GateState::Closed, Action::Release)
        } else {
            (state, Action::Nothing)
        },
        Event::UpstreamClosed => if state == GateState::Bound {
            (GateState::Closed, Action::Release)
        } else {
            (state, Action::Nothing)
        },
    }
}

/// The proxy of one inbound session.
#[derive(Debug)]
pub struct Gate {
    config: Arc<McpServerConfig>,
    state: GateState,
}

impl Gate {
    /// The description of the upstream that this gate binds to.
    pub closed spec fn config_spec(&self) -> McpServerConfig {
        *self.config
    }

    /// Where the session stands.
    pub closed spec fn state_spec(&self) -> GateState {
        self.state
    }

    /// A gate for a new session of the service that `config` describes. No
    /// upstream client exists yet.
    pub fn new(config: Arc<McpServerConfig>) -> (r: Gate)
        ensures
            r.state_spec() == GateState::Unbound,
            r.config_spec() == *config,
    {
        Gate { config, state: GateState::Unbound }
    }

    /// The description of the upstream that this gate binds to.
    pub fn config(&self) -> (r: &McpServerConfig)
        ensures
            *r == self.config_spec(),
    {
        &self.config
    }

    /// Where the session stands.
    #[verifier::when_used_as_spec(state_spec)]
    pub fn state(&self) -> (r: GateState)
        ensures
            r == self.state_spec(),
    {
        self.state
    }

    /// Takes note of `event` and says what is to be done; see [`step`].
    pub fn handle(&mut self, event: Event) -> (action: Action)
        ensures
            (final(self).state_spec(), action) == step(old(self).state_spec(), event),
            final(self).config_spec() == old(self).config_spec(),
    {
        match event {
            Event::Request(request) => self.handle_request(request),
            Event::Notification(notification) => self.handle_notification(notification),
            Event::BindSucceeded => {
                if self.state == GateState::Binding {
                    self.state = GateState::Bound;
                    Action::ReplyInitializeResult
                } else {
                    Action::Nothing
                }
            },
            Event::BindFailed => {
                if self.state == GateState::Binding {
                    self.state = GateState::Unbound;
                    Action::ReplyBindFailure
                } else {
                    Action::Nothing
                }
            },
            Event::SessionClosed | Event::UpstreamClosed => {
                if self.state == GateState::Bound {
                    self.state = GateState::Closed;
                    Action::Release
                } else {
                    Action::Nothing
                }
            },
        }
    }

    /// Decides what is done with a request of the inbound client; see
    /// [`on_request`].
    pub fn handle_request(&mut self, request: Request) -> (action: Action)
        ensures
            (final(self).state_spec(), action) == on_request(old(self).state_spec(), request),
            final(self).config_spec() == old(self).config_spec(),
    {
        match request {
            Request::Ping => Action::ReplyEmpty,
            Request::Initialize => match self.state {
                GateState::Unbound => {
                    self.state = GateState::Binding;
                    Action::Bind
                },
                GateState::Bound => Action::ReplyInitializeResult,
                _ => Action::Reject,
            },
            _ => {
                if self.state != GateState::Bound {
                    return Action::Reject;
                }
                match request {
                    Request::Complete => Action::Forward(Forwarded::Complete),
                    Request::SetLevel => Action::Forward(Forwarded::SetLevel),
                    Request::GetPrompt => Action::Forward(Forwarded::GetPrompt),
                    Request::ListPrompts => Action::ListAll(Listing::Prompts),
                    Request::ListResources => Action::ListAll(Listing::Resources),
                    Request::ListResourceTemplates => Action::ListAll(Listing::ResourceTemplates),
                    Request::ReadResource => Action::Forward(Forwarded::ReadResource),
                    Request::Subscribe => Action::Forward(Forwarded::Subscribe),
                    Request::Unsubscribe => Action::Forward(Forwarded::Unsubscribe),
                    Request::CallTool => Action::Forward(Forwarded::CallTool),
                    Request::ListTools => Action::ListAll(Listing::Tools),
                    Request::Initialize => Action::ReplyInitializeResult,
                    Request::Ping => Action::ReplyEmpty,
                }
            },
        }
    }

    /// Accepts a notification of the inbound client and drops it: nothing is
    /// sent upstream and nothing changes.
    pub fn handle_notification(&mut self, notification: Notification) -> (action: Action)
        ensures
            action == Action::Nothing,
            *final(self) == *old(self),
    {
        match notification {
            Notification::Cancelled => Action::Nothing,
            Notification::Progress => Action::Nothing,
            Notification::Initialized => Action::Nothing,
            Notification::RootsListChanged => Action::Nothing,
        }
    }
}

/// The state that a session is in after a run of events.
pub open spec fn run(state: GateState, events: Seq<Event>) -> GateState
    decreases events.len(),
{
    if events.len() == 0 {
        state
    } else {
        run(step(state, events.first()).0, events.drop_first())
    }
}

/// How often the client factory is called over a run of events.
pub open spec fn binds(state: GateState, events: Seq<Event>) -> nat
    decreases events.len(),
{
    if events.len() == 0 {
        0
    } else {
        let (next, action) = step(state, events.first());
        (if action == Action::Bind {
            1nat
        } else {
            0nat
        }) + binds(next, events.drop_first())
    }
}

/// How often the client factory fails over a run of events.
pub open spec fn failures(events: Seq<Event>) -> nat
    decreases events.len(),
{
    if events.len() == 0 {
        0
    } else {
        (if events.first() == Event::BindFailed {
            1nat
        } else {
            0nat
        }) + failures(events.drop_first())
    }
}

/// `ping` is answered with an empty result in every state, also before
/// `initialize`, and leaves the state as it was.
pub proof fn law_ping_bypass(state: GateState)
    ensures
        step(state, Event::Request(Request::Ping)) == (state, Action::ReplyEmpty),
{
}

/// The client factory is called only for a session that has no upstream
/// client and is not about to get one.
pub proof fn law_bind_only_when_unbound(state: GateState, event: Event)
    requires
        step(state, event).1 == Action::Bind,
    ensures
        state == GateState::Unbound,
        event == Event::Request(Request::Initialize),
        step(state, event).0 == GateState::Binding,
{
}

/// A request reaches the upstream only through a client that is bound.
pub proof fn law_proxy_only_when_bound(state: GateState, event: Event)
    requires
        step(state, event).1 is Forward || step(state, event).1 is ListAll,
    ensures
        state == GateState::Bound,
        step(state, event).0 == GateState::Bound,
{
}

/// Before `initialize` has bound an upstream, every request but `ping` and
/// `initialize` is rejected, and the state stays as it is.
pub proof fn law_misuse_is_rejected(state: GateState, request: Request)
    requires
        state != GateState::Bound,
        request != Request::Ping,
        request != Request::Initialize,
    ensures
        step(state, Event::Request(request)) == (state, Action::Reject),
{
}

proof fn lemma_binds_bounded(state: GateState, events: Seq<Event>)
    ensures
        state == GateState::Unbound ==> binds(state, events) <= 1 + failures(events),
        state == GateState::Binding ==> binds(state, events) <= failures(events),
        state == GateState::Bound || state == GateState::Closed ==> binds(state, events) == 0,
    decreases events.len(),
{
    if events.len() > 0 {
        lemma_binds_bounded(step(state, events.first()).0, events.drop_first());
    }
}

/// The client factory is called at most once for a session, and once more
/// for each time that it failed: a session in which it never fails calls
/// it at most once.
pub proof fn law_single_bind(events: Seq<Event>)
    ensures
        binds(GateState::Unbound, events) <= 1 + failures(events),
        failures(events) == 0 ==> binds(GateState::Unbound, events) <= 1,
{
    lemma_binds_bounded(GateState::Unbound, events);
}

/// Once a session is bound, the client factory is never called again.
pub proof fn law_bound_never_rebinds(events: Seq<Event>)
    ensures
        binds(GateState::Bound, events) == 0,
{
    lemma_binds_bounded(GateState::Bound, events);
}

proof fn lemma_bound_needs_handshake(state: GateState, events: Seq<Event>)
    requires
        state == GateState::Unbound || state == GateState::Binding,
        run(state, events) == GateState::Bound,
    ensures
        events.contains(Event::BindSucceeded),
    decreases events.len(),
{
    if events.len() > 0 {
        let next = step(state, events.first()).0;
        if next == GateState::Bound {
            assert(events[0] == Event::BindSucceeded);
        } else {
            lemma_bound_needs_handshake(next, events.drop_first());
            let i = choose|i: int|
                0 <= i < events.drop_first().len() && events.drop_first()[i]
                    == Event::BindSucceeded;
            assert(events[i + 1] == Event::BindSucceeded);
        }
    }
}

/// A session is bound only after the client factory has returned a client,
/// that is, after the upstream has completed the initialize handshake.
pub proof fn law_bound_after_handshake(events: Seq<Event>)
    requires
        run(GateState::Unbound, events) == GateState::Bound,
    ensures
        events.contains(Event::BindSucceeded),
{
    lemma_bound_needs_handshake(GateState::Unbound, events);
}

} // verus!
