//! The client's side of the handshake: which hello to send, what the
//! server's reply means, and what to tell the operator once a tunnel stands.

use crate::error::Error;
use crate::ids::ClientId;
use crate::ids::ReconnectToken;
use crate::wire::same_text;
use vstd::prelude::*;
use vstd::string::*;

verus! {

/// A secret that identifies an account to the server.
#[derive(Clone, Debug, PartialEq, Eq)]
pub struct SecretKey(pub String);

/// How a client identifies itself.
#[derive(Clone, Debug, PartialEq, Eq)]
pub enum AuthMode {
    Anonymous,
    Keyed(SecretKey),
    Resume(ReconnectToken),
}

/// The first and only request of a handshake.
#[derive(Clone, Debug, PartialEq, Eq)]
pub struct ClientHello {
    pub sub_domain: Option<String>,
    pub auth: AuthMode,
}

/// The one reply to a hello.
#[derive(Clone, Debug, PartialEq, Eq)]
pub enum ServerHello {
    Success { sub_domain: String, client_id: ClientId },
    AuthFailed,
    InvalidSubDomain,
    SubDomainInUse,
    Error(String),
}

/// A server hello as plain values.
pub enum ServerHelloView {
    Success { sub_domain: Seq<char>, client_id: Seq<char> },
    AuthFailed,
    InvalidSubDomain,
    SubDomainInUse,
    Error(Seq<char>),
}

impl View for ServerHello {
    type V = ServerHelloView;

    open spec fn view(&self) -> ServerHelloView {
        match self {
            ServerHello::Success { sub_domain, client_id } => ServerHelloView::Success {
                sub_domain: sub_domain@,
                client_id: client_id@,
            },
            ServerHello::AuthFailed => ServerHelloView::AuthFailed,
            ServerHello::InvalidSubDomain => ServerHelloView::InvalidSubDomain,
            ServerHello::SubDomainInUse => ServerHelloView::SubDomainInUse,
            ServerHello::Error(message) => ServerHelloView::Error(message@),
        }
    }
}

/// What came back after the hello was sent.
#[derive(Clone, Debug, PartialEq, Eq)]
pub enum HelloReply {
    /// The server's reply.
    Hello(ServerHello),
    /// A reply that could not be read as a server hello.
    Unreadable,
    /// No reply at all within the time allowed.
    Silence,
    /// The transport failed while waiting; the text says how.
    TransportFailed(String),
}

/// Seconds that a client waits for the server's hello before it counts the
/// server as silent.
pub const HELLO_WAIT_SECS: u64 = 30;

/// What a successful handshake grants.
#[derive(Clone, Debug, PartialEq, Eq)]
pub struct Granted {
    pub sub_domain: String,
    pub client_id: ClientId,
}

/// The hello to send: a secret key comes first, a captured reconnect token
/// second, and only a client with neither is anonymous. A resuming client
/// asks for no sub-domain: the token names it.
pub open spec fn chosen_hello(
    sub_domain: Option<String>,
    secret_key: Option<SecretKey>,
    captured: Option<ReconnectToken>,
) -> ClientHello {
    match secret_key {
        Some(key) => ClientHello { sub_domain, auth: AuthMode::Keyed(key) },
        None => match captured {
            Some(token) => ClientHello { sub_domain: None, auth: AuthMode::Resume(token) },
            None => ClientHello { sub_domain, auth: AuthMode::Anonymous },
        },
    }
}

/// What a reply means to the client: the grant, or the one failure that
/// stands for it.
pub open spec fn reply_outcome(reply: HelloReply) -> Result<Granted, Error> {
    match reply {
        HelloReply::Hello(ServerHello::Success { sub_domain, client_id }) => Ok(
            Granted { sub_domain, client_id },
        ),
        HelloReply::Hello(ServerHello::AuthFailed) => Err(Error::AuthenticationFailed),
        HelloReply::Hello(ServerHello::InvalidSubDomain) => Err(Error::InvalidSubDomain),
        HelloReply::Hello(ServerHello::SubDomainInUse) => Err(Error::SubDomainInUse),
        HelloReply::Hello(ServerHello::Error(message)) => Err(Error::ServerError(message)),
        HelloReply::Unreadable => Err(Error::ServerReplyInvalid),
        HelloReply::Silence => Err(Error::NoResponseFromServer),
        HelloReply::TransportFailed(detail) => Err(Error::WebSocketError(detail)),
    }
}

impl ClientHello {
    /// A hello that asks for `sub_domain` with the given identification.
    pub fn generate(sub_domain: Option<String>, auth: AuthMode) -> (hello: ClientHello)
        ensures
            hello == (ClientHello { sub_domain, auth }),
    {
        ClientHello { sub_domain, auth }
    }

    /// A hello that resumes the session that `token` names.
    pub fn reconnect(token: ReconnectToken) -> (hello: ClientHello)
        ensures
            hello == (ClientHello { sub_domain: None, auth: AuthMode::Resume(token) }),
    {
        ClientHello { sub_domain: None, auth: AuthMode::Resume(token) }
    }

    /// The hello to send after the transport has connected.
    pub fn select(
        sub_domain: Option<String>,
        secret_key: Option<SecretKey>,
        captured: Option<ReconnectToken>,
    ) -> (hello: ClientHello)
        ensures
            hello == chosen_hello(sub_domain, secret_key, captured),
    {
        match secret_key {
            Some(key) => ClientHello::generate(sub_domain, AuthMode::Keyed(key)),
            None => match captured {
                Some(token) => ClientHello::reconnect(token),
                None => ClientHello::generate(sub_domain, AuthMode::Anonymous),
            },
        }
    }
}

/// Turns what came back after the hello into the handshake's result. Only a
/// success grants anything; each refusal is its own failure, and none of
/// them is retryable. Silence and a failed transport are.
pub fn handshake_outcome(reply: HelloReply) -> (r: Result<Granted, Error>)
    ensures
        r == reply_outcome(reply),
{
    match reply {
        HelloReply::Hello(ServerHello::Success { sub_domain, client_id }) => Ok(
            Granted { sub_domain, client_id },
        ),
        HelloReply::Hello(ServerHello::AuthFailed) => Err(Error::AuthenticationFailed),
        HelloReply::Hello(ServerHello::InvalidSubDomain) => Err(Error::InvalidSubDomain),
        HelloReply::Hello(ServerHello::SubDomainInUse) => Err(Error::SubDomainInUse),
        HelloReply::Hello(ServerHello::Error(message)) => Err(Error::ServerError(message)),
        HelloReply::Unreadable => Err(Error::ServerReplyInvalid),
        HelloReply::Silence => Err(Error::NoResponseFromServer),
        HelloReply::TransportFailed(detail) => Err(Error::WebSocketError(detail)),
    }
}

/// A hint to print when the server granted another sub-domain than the one
/// asked for.
#[derive(Clone, Copy, Debug, PartialEq, Eq, Structural)]
pub enum Notice {
    /// The account's plan does not include custom sub-domains.
    UpgradePlan,
    /// Custom sub-domains need an authentication key.
    GetKey,
}

/// Whether the granted sub-domain is the requested one.
pub open spec fn got_requested(requested: Option<Seq<char>>, granted: Seq<char>) -> bool {
    requested == Some(granted)
}

/// Whether the tunnel is announced: on the first connection, and whenever
/// the sub-domain is not the one asked for.
pub open spec fn announces(first_run: bool, requested: Option<Seq<char>>, granted: Seq<char>)
    -> bool {
    first_run || !got_requested(requested, granted)
}

/// The hint that goes with an announcement, if any.
pub open spec fn notice_for(requested: Option<Seq<char>>, granted: Seq<char>, has_key: bool)
    -> Option<Notice> {
    if requested is Some && !got_requested(requested, granted) {
        if has_key {
            Some(Notice::UpgradePlan)
        } else {
            Some(Notice::GetKey)
        }
    } else {
        None
    }
}

/// The port as it is shown behind the local host's name.
pub open spec fn port_suffix(scheme: Seq<char>, local_port: Option<Seq<char>>) -> Seq<char> {
    match local_port {
        Some(port) => ":"@ + port,
        None => if scheme == "http"@ {
            ":8000"@
        } else {
            Seq::<char>::empty()
        },
    }
}

/// The local address that the tunnel forwards to, as it is shown.
pub open spec fn forward_target(
    scheme: Seq<char>,
    local_host: Seq<char>,
    local_port: Option<Seq<char>>,
) -> Seq<char> {
    scheme + "://"@ + local_host + port_suffix(scheme, local_port)
}

/// The view of an optional text.
pub open spec fn text_view(text: Option<&str>) -> Option<Seq<char>> {
    match text {
        Some(t) => Some(t@),
        None => None,
    }
}

/// Whether the server granted the sub-domain that was asked for.
pub fn granted_is_requested(requested: Option<&str>, granted: &str) -> (r: bool)
    ensures
        r == got_requested(text_view(requested), granted@),
{
    match requested {
        Some(name) => same_text(name, granted),
        None => false,
    }
}

/// Whether to announce the tunnel after a handshake.
pub fn should_announce(first_run: bool, requested: Option<&str>, granted: &str) -> (r: bool)
    ensures
        r == announces(first_run, text_view(requested), granted@),
{
    first_run || !granted_is_requested(requested, granted)
}

/// The hint to print with the announcement, if any.
pub fn announcement_notice(requested: Option<&str>, granted: &str, has_key: bool) -> (r: Option<
    Notice,
>)
    ensures
        r == notice_for(text_view(requested), granted@, has_key),
{
    if requested.is_some() && !granted_is_requested(requested, granted) {
        if has_key {
            Some(Notice::UpgradePlan)
        } else {
            Some(Notice::GetKey)
        }
    } else {
        None
    }
}

/// The port as it is shown: the configured one, else 8000 for plain HTTP,
/// else nothing.
pub fn forward_port_suffix(scheme: &str, local_port: Option<&str>) -> (suffix: String)
    ensures
        suffix@ == port_suffix(scheme@, text_view(local_port)),
{
    match local_port {
        Some(port) => {
            let mut suffix = String::from_str(":");
            suffix.append(port);
            suffix
        },
        None => if same_text(scheme, "http") {
            String::from_str(":8000")
        } else {
            String::new()
        },
    }
}

/// The local address as it is shown in the announcement.
pub fn forward_address(scheme: &str, local_host: &str, local_port: Option<&str>) -> (shown: String)
    ensures
        shown@ == forward_target(scheme@, local_host@, text_view(local_port)),
{
    let mut shown = String::from_str(scheme);
    shown.append("://");
    shown.append(local_host);
    let suffix = forward_port_suffix(scheme, local_port);
    shown.append(suffix.as_str());
    shown
}

} // verus!
