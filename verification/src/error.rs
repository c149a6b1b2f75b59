//! The faults that the gateway reports, and how each is put into words.

use vstd::prelude::*;
use vstd::std_specs::convert::FromSpecImpl;
use vstd::string::StringExecFns;

verus! {

/// The JSON-RPC code of an internal error.
pub const INTERNAL_ERROR: i32 = -32603;

/// The HTTP status of a request for a service that is not configured.
pub const NOT_FOUND: u16 = 404;

/// A fault of the gateway.
#[derive(Debug, Clone, PartialEq, Eq)]
pub enum Error {
    /// A file or a socket failed; the description of the failure.
    Io(String),
    /// An SSE or streamable transport failed to connect or broke.
    Transport(String),
    /// The upstream did not complete the initialize handshake.
    Handshake(String),
    /// The upstream answered a forwarded request with an error.
    Upstream(String),
    /// No service of this name is configured.
    NotFound(String),
    /// A request that needs a bound upstream came while none was bound.
    ProtocolMisuse,
}

/// The model of [`Error`].
pub enum ErrorView {
    Io(Seq<char>),
    Transport(Seq<char>),
    Handshake(Seq<char>),
    Upstream(Seq<char>),
    NotFound(Seq<char>),
    ProtocolMisuse,
}

impl View for Error {
    type V = ErrorView;

    open spec fn view(&self) -> ErrorView {
        match self {
            Error::Io(text) => ErrorView::Io(text@),
            Error::Transport(text) => ErrorView::Transport(text@),
            Error::Handshake(text) => ErrorView::Handshake(text@),
            Error::Upstream(text) => ErrorView::Upstream(text@),
            Error::NotFound(service) => ErrorView::NotFound(service@),
            Error::ProtocolMisuse => ErrorView::ProtocolMisuse,
        }
    }
}

/// The text by which a fault is described.
pub open spec fn description(fault: ErrorView) -> Seq<char> {
    match fault {
        ErrorView::Io(text) => text,
        ErrorView::Transport(text) => "Client error: "@ + text,
        ErrorView::Handshake(text) => text,
        ErrorView::Upstream(text) => text,
        ErrorView::NotFound(service) => "Service "@ + service + " not found"@,
        ErrorView::ProtocolMisuse => "no upstream client is bound to this session"@,
    }
}

/// An error reply of the protocol.
#[derive(Debug, Clone, PartialEq, Eq)]
pub struct McpError {
    pub code: i32,
    pub message: String,
}

impl Error {
    /// The text by which the fault is described; see [`description`].
    pub fn message(&self) -> (r: String)
        ensures
            r@ == description(self@),
    {
        match self {
            Error::Io(text) => text.clone(),
            Error::Transport(text) => {
                let mut r = "Client error: ".to_owned();
                r.append(text.as_str());
                r
            },
            Error::Handshake(text) => text.clone(),
            Error::Upstream(text) => text.clone(),
            Error::NotFound(service) => {
                let mut r = "Service ".to_owned();
                r.append(service.as_str());
                r.append(" not found");
                r
            },
            Error::ProtocolMisuse => "no upstream client is bound to this session".to_owned(),
        }
    }
}

/// The error reply that carries `message` as an internal error.
pub fn mcp_err(message: String) -> (r: McpError)
    ensures
        r.code == INTERNAL_ERROR,
        r.message == message,
{
    McpError { code: INTERNAL_ERROR, message }
}

impl From<Error> for McpError {
    /// Every fault of a session is reported downstream as an internal error
    /// that carries the fault's description.
    fn from(fault: Error) -> (r: Self)
        ensures
            r.code == INTERNAL_ERROR,
            r.message@ == description(fault@),
    {
        mcp_err(fault.message())
    }
}

impl FromSpecImpl<Error> for McpError {
    open spec fn obeys_from_spec() -> bool {
        false
    }

    open spec fn from_spec(fault: Error) -> Self {
        arbitrary()
    }
}

} // verus!
