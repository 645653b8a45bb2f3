//! What can end a tunnel client's connection cycle.

use vstd::prelude::*;
use vstd::string::*;

verus! {

/// A failure of the tunnel client.
#[derive(Clone, Debug, PartialEq, Eq)]
pub enum Error {
    /// The transport to the control server failed; the text says how.
    WebSocketError(String),
    AuthenticationFailed,
    MalformedMessageFromServer,
    InvalidSubDomain,
    SubDomainInUse,
    /// The server refused with a message of its own.
    ServerError(String),
    ServerReplyInvalid,
    NoResponseFromServer,
    Timeout,
    /// An HTTP request failed; the text says how.
    ReqwestError(String),
    OAuth2(String),
}

/// Whether a failure is worth another attempt: failures of the transport,
/// a server that stays silent after the hello, and a connection that went
/// quiet. Every other failure would only repeat itself.
pub open spec fn retryable(e: Error) -> bool {
    e is WebSocketError || e is NoResponseFromServer || e is Timeout
}

/// The line that tells the operator of a failure.
pub open spec fn error_text(e: Error) -> Seq<char> {
    match e {
        Error::WebSocketError(detail) => "Failed to connect to control server: "@ + detail@
            + "."@,
        Error::AuthenticationFailed => "Server denied the connection."@,
        Error::MalformedMessageFromServer => "Server sent a malformed message."@,
        Error::InvalidSubDomain => "Invalid sub-domain specified."@,
        Error::SubDomainInUse => "Cannot use this sub-domain, it is already taken."@,
        Error::ServerError(message) => message@,
        Error::ServerReplyInvalid => "The server responded with an invalid response."@,
        Error::NoResponseFromServer => "The server did not respond to our client_hello."@,
        Error::Timeout => "The server timed out sending us something."@,
        Error::ReqwestError(detail) => "Reqwest error: "@ + detail@,
        Error::OAuth2(detail) => "OAuth2 Authentication error: "@ + detail@,
    }
}

impl Error {
    /// Whether the session loop reconnects after this failure.
    pub fn is_retryable(&self) -> (r: bool)
        ensures
            r == retryable(*self),
    {
        match self {
            Error::WebSocketError(_) => true,
            Error::NoResponseFromServer => true,
            Error::Timeout => true,
            _ => false,
        }
    }

    /// The line that tells the operator of this failure.
    pub fn message(&self) -> (text: String)
        ensures
            text@ == error_text(*self),
    {
        match self {
            Error::WebSocketError(detail) => {
                let mut text = String::from_str("Failed to connect to control server: ");
                text.append(detail.as_str());
                text.append(".");
                text
            },
            Error::AuthenticationFailed => String::from_str("Server denied the connection."),
            Error::MalformedMessageFromServer => String::from_str(
                "Server sent a malformed message.",
            ),
            Error::InvalidSubDomain => String::from_str("Invalid sub-domain specified."),
            Error::SubDomainInUse => String::from_str(
                "Cannot use this sub-domain, it is already taken.",
            ),
            Error::ServerError(message) => message.clone(),
            Error::ServerReplyInvalid => String::from_str(
                "The server responded with an invalid response.",
            ),
            Error::NoResponseFromServer => String::from_str(
                "The server did not respond to our client_hello.",
            ),
            Error::Timeout => String::from_str("The server timed out sending us something."),
            Error::ReqwestError(detail) => {
                let mut text = String::from_str("Reqwest error: ");
                text.append(detail.as_str());
                text
            },
            Error::OAuth2(detail) => {
                let mut text = String::from_str("OAuth2 Authentication error: ");
                text.append(detail.as_str());
                text
            },
        }
    }
}

} // verus!
