//! Error values of the library, each with its message text.
use vstd::prelude::*;
use vstd::string::StringExecFns;

verus! {

/// A route pattern could not be registered.
#[derive(Clone, Debug)]
pub enum RouteError {
    /// The pattern is identical to, or overlaps, one already registered.
    DuplicatePattern(String),
}

impl RouteError {
    /// The message shown for this error.
    pub fn message(&self) -> (r: String)
        ensures
            match self {
                RouteError::DuplicatePattern(p) => r@ == "Route pattern already exists: "@ + p@,
            },
    {
        match self {
            RouteError::DuplicatePattern(p) => {
                let mut s = String::from_str("Route pattern already exists: ");
                s.append(p.as_str());
                s
            },
        }
    }
}

/// A failure of the server or of one connection.
#[derive(Clone, Debug)]
pub enum ServerError {
    /// The listener could not be bound; the server does not serve.
    TcpBindError(String),
    /// Reading from a connection failed; that connection closes.
    HttpReadError(String),
    /// The bytes read were no valid request; that connection closes.
    InvalidHttpRequest(String),
    Unknown,
}

impl ServerError {
    /// The message shown for this error.
    pub fn message(&self) -> (r: String)
        ensures
            match self {
                ServerError::TcpBindError(d) => r@ == "Tcp bind error: "@ + d@,
                ServerError::HttpReadError(d) => r@ == "Http read error: "@ + d@,
                ServerError::InvalidHttpRequest(d) => r@ == "Invalid http request: "@ + d@,
                ServerError::Unknown => r@ == "Unknown"@,
            },
    {
        match self {
            ServerError::TcpBindError(d) => {
                let mut s = String::from_str("Tcp bind error: ");
                s.append(d.as_str());
                s
            },
            ServerError::HttpReadError(d) => {
                let mut s = String::from_str("Http read error: ");
                s.append(d.as_str());
                s
            },
            ServerError::InvalidHttpRequest(d) => {
                let mut s = String::from_str("Invalid http request: ");
                s.append(d.as_str());
                s
            },
            ServerError::Unknown => String::from_str("Unknown"),
        }
    }
}

/// A response could not be sent.
#[derive(Clone, Copy, Debug, PartialEq, Eq, Structural)]
pub enum ResponseError {
    /// The context has no transport.
    NotFoundStream,
    /// A plain HTTP send was attempted on a WebSocket session.
    NotSupportUseThisMethod,
    /// The upgrade request carries no `Sec-WebSocket-Key`.
    WebSocketHandShakeError,
    /// The transport refused the write.
    TransportError,
}

} // verus!
