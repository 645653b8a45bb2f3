//! The server's side of the handshake: whom a hello identifies, which
//! sub-domain it is granted, and the binding that a grant makes in the
//! routing registry.

use crate::handshake::AuthMode;
use crate::handshake::ClientHello;
use crate::handshake::ServerHello;
use crate::handshake::ServerHelloView;
use crate::ids::is_valid_sub_domain;
use crate::ids::valid_sub_domain;
use crate::ids::ClientId;
use crate::reconnect_token::base64_bytes;
use crate::reconnect_token::token_outcome;
use crate::reconnect_token::verdict_view;
use crate::reconnect_token::Error;
use crate::reconnect_token::PayloadView;
use crate::reconnect_token::ReconnectTokenPayload;
use crate::registry::RoutingRegistry;
use crate::signature::SigKey;
use vstd::prelude::*;
use vstd::string::*;

verus! {

/// An identity and a sub-domain that nobody holds yet, as the caller drew
/// them, for a client that brings neither.
#[derive(Clone, Debug)]
pub struct Candidate {
    pub client_id: ClientId,
    pub sub_domain: String,
}

/// The hostname under which a sub-domain is reached.
pub open spec fn hostname_of(sub_domain: Seq<char>, tunnel_host: Seq<char>) -> Seq<char> {
    sub_domain + "."@ + tunnel_host
}

/// The registry and the answer after `client` has asked for `sub_domain`:
/// a name that is no sub-domain is refused, one that another client holds
/// is refused as in use, and any other is bound to the client and granted.
pub open spec fn grant_outcome(
    routes: Map<Seq<char>, Seq<char>>,
    tunnel_host: Seq<char>,
    client: Seq<char>,
    sub_domain: Seq<char>,
) -> (Map<Seq<char>, Seq<char>>, ServerHelloView) {
    let hostname = hostname_of(sub_domain, tunnel_host);
    if !valid_sub_domain(sub_domain) {
        (routes, ServerHelloView::InvalidSubDomain)
    } else if routes.contains_key(hostname) && routes[hostname] != client {
        (routes, ServerHelloView::SubDomainInUse)
    } else {
        (
            routes.insert(hostname, client),
            ServerHelloView::Success { sub_domain, client_id: client },
        )
    }
}

/// The text of an optional client id.
pub open spec fn client_view(client: Option<ClientId>) -> Option<Seq<char>> {
    match client {
        Some(c) => Some(c@),
        None => None,
    }
}

/// The registry and the answer after a hello.
///
/// A requested name that is no sub-domain is refused before anything else.
/// A keyed client must have a key that belongs to an account; it is then
/// granted the name it asked for, or the candidate's where it asked for
/// none, under the account's identity. A resuming client must bring a token
/// that is accepted; it is then granted the very sub-domain and identity
/// that the token names. An anonymous client is granted the candidate.
/// Every grant goes through `grant_outcome`, so nobody is granted a name
/// that another live client holds.
pub open spec fn hello_outcome(
    routes: Map<Seq<char>, Seq<char>>,
    tunnel_host: Seq<char>,
    hello: ClientHello,
    account: Option<Seq<char>>,
    verdict: Result<PayloadView, Error>,
    candidate: Candidate,
) -> (Map<Seq<char>, Seq<char>>, ServerHelloView) {
    if hello.sub_domain is Some && !valid_sub_domain(hello.sub_domain->0@) {
        (routes, ServerHelloView::InvalidSubDomain)
    } else {
        match hello.auth {
            AuthMode::Keyed(_) => match account {
                None => (routes, ServerHelloView::AuthFailed),
                Some(client) => grant_outcome(
                    routes,
                    tunnel_host,
                    client,
                    match hello.sub_domain {
                        Some(name) => name@,
                        None => candidate.sub_domain@,
                    },
                ),
            },
            AuthMode::Resume(_) => match verdict {
                Err(_) => (routes, ServerHelloView::AuthFailed),
                Ok(claim) => grant_outcome(routes, tunnel_host, claim.client_id, claim.sub_domain),
            },
            AuthMode::Anonymous => grant_outcome(
                routes,
                tunnel_host,
                candidate.client_id@,
                candidate.sub_domain@,
            ),
        }
    }
}

/// The verdict on the token of a resuming hello under `key` at time `now`.
/// For any other hello there is no token to judge.
pub open spec fn resume_verdict(hello: ClientHello, key: Seq<u8>, now: i64) -> Result<
    PayloadView,
    Error,
> {
    match hello.auth {
        AuthMode::Resume(token) => token_outcome(base64_bytes(token@), key, now),
        _ => Err(Error::Malformed),
    }
}

/// The hostname under which `sub_domain` is reached.
pub fn hostname(sub_domain: &str, tunnel_host: &str) -> (name: String)
    ensures
        name@ == hostname_of(sub_domain@, tunnel_host@),
{
    let mut name = String::from_str(sub_domain);
    name.append(".");
    name.append(tunnel_host);
    name
}

/// Grants `sub_domain` to `client` if it is a sub-domain that no other
/// client holds, and binds its hostname to the client.
pub fn grant(
    registry: &mut RoutingRegistry,
    tunnel_host: &str,
    client: ClientId,
    sub_domain: String,
) -> (answer: ServerHello)
    ensures
        (final(registry)@, answer@) == grant_outcome(
            old(registry)@,
            tunnel_host@,
            client@,
            sub_domain@,
        ),
{
    if !is_valid_sub_domain(sub_domain.as_str()) {
        return ServerHello::InvalidSubDomain;
    }
    let name = hostname(sub_domain.as_str(), tunnel_host);
    let owner = ClientId(client.0.clone());
    match registry.bind(name, owner) {
        Ok(_) => ServerHello::Success { sub_domain, client_id: client },
        Err(_) => ServerHello::SubDomainInUse,
    }
}

/// Answers a hello whose identification has been judged: `account` is the
/// identity that the hello's secret key belongs to, if it belongs to any,
/// and `verdict` is what became of its reconnect token.
pub fn answer_judged(
    registry: &mut RoutingRegistry,
    tunnel_host: &str,
    hello: ClientHello,
    account: Option<ClientId>,
    verdict: Result<ReconnectTokenPayload, Error>,
    candidate: Candidate,
) -> (answer: ServerHello)
    ensures
        (final(registry)@, answer@) == hello_outcome(
            old(registry)@,
            tunnel_host@,
            hello,
            client_view(account),
            verdict_view(verdict),
            candidate,
        ),
{
    let valid = match &hello.sub_domain {
        Some(name) => is_valid_sub_domain(name.as_str()),
        None => true,
    };
    if !valid {
        return ServerHello::InvalidSubDomain;
    }
    match hello.auth {
        AuthMode::Keyed(_) => match account {
            None => ServerHello::AuthFailed,
            Some(client) => {
                let sub_domain = match hello.sub_domain {
                    Some(name) => name,
                    None => candidate.sub_domain,
                };
                grant(registry, tunnel_host, client, sub_domain)
            },
        },
        AuthMode::Resume(_) => match verdict {
            Err(_) => ServerHello::AuthFailed,
            Ok(claim) => grant(registry, tunnel_host, claim.client_id, claim.sub_domain),
        },
        AuthMode::Anonymous => grant(
            registry,
            tunnel_host,
            candidate.client_id,
            candidate.sub_domain,
        ),
    }
}

/// Answers a hello: judges the reconnect token of a resuming client under
/// `key` at time `now`, then answers as `answer_judged` does.
pub fn answer_hello(
    registry: &mut RoutingRegistry,
    tunnel_host: &str,
    hello: ClientHello,
    key: &SigKey,
    now: i64,
    account: Option<ClientId>,
    candidate: Candidate,
) -> (answer: ServerHello)
    ensures
        (final(registry)@, answer@) == hello_outcome(
            old(registry)@,
            tunnel_host@,
            hello,
            client_view(account),
            resume_verdict(hello, key@, now),
            candidate,
        ),
{
    let verdict = match &hello.auth {
        AuthMode::Resume(token) => ReconnectTokenPayload::verify_at(
            crate::ids::ReconnectToken(token.0.clone()),
            key,
            now,
        ),
        _ => Err(Error::Malformed),
    };
    answer_judged(registry, tunnel_host, hello, account, verdict, candidate)
}

/// No answer takes a hostname from the client that holds it: whatever the
/// hello, every hostname that was bound stays bound to the same client.
pub proof fn lemma_owners_stay(
    routes: Map<Seq<char>, Seq<char>>,
    tunnel_host: Seq<char>,
    hello: ClientHello,
    account: Option<Seq<char>>,
    verdict: Result<PayloadView, Error>,
    candidate: Candidate,
)
    ensures
        forall|hostname: Seq<char>| #[trigger]
            routes.contains_key(hostname) ==> {
                let after = hello_outcome(routes, tunnel_host, hello, account, verdict, candidate).0;
                after.contains_key(hostname) && after[hostname] == routes[hostname]
            },
{
}

/// Only a success changes the registry, and it binds exactly the hostname
/// of the sub-domain that it grants, to the client that it names.
pub proof fn lemma_only_success_binds(
    routes: Map<Seq<char>, Seq<char>>,
    tunnel_host: Seq<char>,
    hello: ClientHello,
    account: Option<Seq<char>>,
    verdict: Result<PayloadView, Error>,
    candidate: Candidate,
)
    ensures
        ({
            let (after, answer) = hello_outcome(
                routes,
                tunnel_host,
                hello,
                account,
                verdict,
                candidate,
            );
            match answer {
                ServerHelloView::Success { sub_domain, client_id } => {
                    &&& valid_sub_domain(sub_domain)
                    &&& after == routes.insert(hostname_of(sub_domain, tunnel_host), client_id)
                },
                _ => after == routes,
            }
        }),
{
}

/// A second claimant is refused: once a sub-domain has been granted to one
/// client, another client that asks for it is told that it is in use, and
/// the registry stays as it is.
pub proof fn lemma_second_claimant_is_refused(
    routes: Map<Seq<char>, Seq<char>>,
    tunnel_host: Seq<char>,
    first: Seq<char>,
    second: Seq<char>,
    sub_domain: Seq<char>,
)
    requires
        first != second,
        grant_outcome(routes, tunnel_host, first, sub_domain).1 is Success,
    ensures
        ({
            let bound = grant_outcome(routes, tunnel_host, first, sub_domain).0;
            grant_outcome(bound, tunnel_host, second, sub_domain) == (
                bound,
                ServerHelloView::SubDomainInUse,
            )
        }),
{
}

/// Resumption keeps name and identity: a resuming client whose token is
/// accepted is granted the sub-domain and the identity that the token
/// names, unless another client holds that sub-domain.
pub proof fn lemma_resume_regrants(
    routes: Map<Seq<char>, Seq<char>>,
    tunnel_host: Seq<char>,
    hello: ClientHello,
    account: Option<Seq<char>>,
    claim: PayloadView,
    candidate: Candidate,
)
    requires
        hello.auth is Resume,
        hello.sub_domain is None,
        valid_sub_domain(claim.sub_domain),
        !routes.contains_key(hostname_of(claim.sub_domain, tunnel_host)) || routes[hostname_of(
            claim.sub_domain,
            tunnel_host,
        )] == claim.client_id,
    ensures
        hello_outcome(
            routes,
            tunnel_host,
            hello,
            account,
            Ok::<PayloadView, Error>(claim),
            candidate,
        ) == (
            routes.insert(hostname_of(claim.sub_domain, tunnel_host), claim.client_id),
            ServerHelloView::Success {
                sub_domain: claim.sub_domain,
                client_id: claim.client_id,
            },
        ),
{
}

} // verus!
