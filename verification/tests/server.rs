use portalgun::handshake::AuthMode;
use portalgun::handshake::ClientHello;
use portalgun::handshake::SecretKey;
use portalgun::handshake::ServerHello;
use portalgun::ids::ClientId;
use portalgun::ids::ReconnectToken;
use portalgun::query::handle_query;
use portalgun::query::HostQuery;
use portalgun::reconnect_token::Error;
use portalgun::reconnect_token::ReconnectTokenPayload;
use portalgun::registry::AlreadyBound;
use portalgun::registry::RoutingRegistry;
use portalgun::server_handshake::answer_hello;
use portalgun::server_handshake::answer_judged;
use portalgun::server_handshake::grant;
use portalgun::server_handshake::hostname;
use portalgun::server_handshake::Candidate;
use portalgun::signature::SigKey;

const HOST: &str = "tunnel.example";

fn key() -> SigKey {
    SigKey::from_bytes(vec![7u8; 32])
}

fn client(id: &str) -> ClientId {
    ClientId(id.to_string())
}

fn candidate(id: &str, sub_domain: &str) -> Candidate {
    Candidate { client_id: client(id), sub_domain: sub_domain.to_string() }
}

fn success(sub_domain: &str, id: &str) -> ServerHello {
    ServerHello::Success { sub_domain: sub_domain.to_string(), client_id: client(id) }
}

fn token_for(sub_domain: &str, id: &str, expires: i64) -> ReconnectToken {
    let claim = ReconnectTokenPayload {
        sub_domain: sub_domain.to_string(),
        client_id: client(id),
        expires,
    };
    claim.into_token(&key()).unwrap()
}

fn anonymous() -> ClientHello {
    ClientHello { sub_domain: None, auth: AuthMode::Anonymous }
}

fn keyed(sub_domain: Option<&str>) -> ClientHello {
    ClientHello {
        sub_domain: sub_domain.map(|s| s.to_string()),
        auth: AuthMode::Keyed(SecretKey("secret".to_string())),
    }
}

fn resume(token: ReconnectToken) -> ClientHello {
    ClientHello { sub_domain: None, auth: AuthMode::Resume(token) }
}

#[test]
fn registry_bind_lookup_unbind() {
    let mut registry = RoutingRegistry::new();
    assert_eq!(registry.lookup("a.example"), None);
    assert_eq!(registry.bind("a.example".to_string(), client("c-1")), Ok(()));
    assert_eq!(registry.bind("b.example".to_string(), client("c-1")), Ok(()));
    assert_eq!(registry.bind("c.example".to_string(), client("c-2")), Ok(()));
    assert_eq!(registry.lookup("a.example"), Some(client("c-1")));
    assert_eq!(registry.lookup("b.example"), Some(client("c-1")));
    assert_eq!(registry.lookup("c.example"), Some(client("c-2")));
    assert_eq!(registry.lookup("A.example"), None);
    registry.unbind(&client("c-1"));
    assert_eq!(registry.lookup("a.example"), None);
    assert_eq!(registry.lookup("b.example"), None);
    assert_eq!(registry.lookup("c.example"), Some(client("c-2")));
    registry.unbind(&client("c-1"));
    assert_eq!(registry.lookup("c.example"), Some(client("c-2")));
}

#[test]
fn registry_bind_to_another_client_fails() {
    let mut registry = RoutingRegistry::new();
    registry.bind("a.example".to_string(), client("c-1")).unwrap();
    assert_eq!(registry.bind("a.example".to_string(), client("c-2")), Err(AlreadyBound));
    assert_eq!(registry.lookup("a.example"), Some(client("c-1")));
    assert_eq!(registry.bind("a.example".to_string(), client("c-1")), Ok(()));
    assert_eq!(registry.lookup("a.example"), Some(client("c-1")));
}

#[test]
fn registry_hostname_is_free_again_after_unbind() {
    let mut registry = RoutingRegistry::new();
    registry.bind("a.example".to_string(), client("c-1")).unwrap();
    registry.unbind(&client("c-1"));
    assert_eq!(registry.bind("a.example".to_string(), client("c-2")), Ok(()));
    assert_eq!(registry.lookup("a.example"), Some(client("c-2")));
}

#[test]
fn query_reads_the_registry() {
    let mut registry = RoutingRegistry::new();
    registry.bind("a1b2.tunnel.example".to_string(), client("c-1")).unwrap();
    let hit = handle_query(&registry, HostQuery { host: "a1b2.tunnel.example".to_string() });
    assert_eq!(hit.client_id, Some(client("c-1")));
    let miss = handle_query(&registry, HostQuery { host: "zzzz.tunnel.example".to_string() });
    assert_eq!(miss.client_id, None);
    assert_eq!(registry.lookup("a1b2.tunnel.example"), Some(client("c-1")));
}

#[test]
fn hostname_of_a_sub_domain() {
    assert_eq!(hostname("a1b2", HOST), "a1b2.tunnel.example");
    assert_eq!(hostname("", ""), ".");
}

#[test]
fn anonymous_hello_is_granted_the_candidate() {
    let mut registry = RoutingRegistry::new();
    let answer =
        answer_hello(&mut registry, HOST, anonymous(), &key(), 0, None, candidate("c-1", "a1b2"));
    assert_eq!(answer, success("a1b2", "c-1"));
    assert_eq!(registry.lookup("a1b2.tunnel.example"), Some(client("c-1")));
}

#[test]
fn resume_keeps_sub_domain_and_identity() {
    let mut registry = RoutingRegistry::new();
    let token = token_for("a1b2", "c-1", 1_000);
    let answer = answer_hello(
        &mut registry,
        HOST,
        resume(token.clone()),
        &key(),
        500,
        None,
        candidate("c-9", "zzzz"),
    );
    assert_eq!(answer, success("a1b2", "c-1"));
    assert_eq!(registry.lookup("a1b2.tunnel.example"), Some(client("c-1")));
    assert_eq!(registry.lookup("zzzz.tunnel.example"), None);
    let again = answer_hello(
        &mut registry,
        HOST,
        resume(token),
        &key(),
        600,
        None,
        candidate("c-9", "zzzz"),
    );
    assert_eq!(again, success("a1b2", "c-1"));
}

#[test]
fn resume_while_another_session_holds_the_sub_domain() {
    let mut registry = RoutingRegistry::new();
    registry.bind("a1b2.tunnel.example".to_string(), client("c-2")).unwrap();
    let token = token_for("a1b2", "c-1", 1_000);
    let answer = answer_hello(
        &mut registry,
        HOST,
        resume(token),
        &key(),
        500,
        None,
        candidate("c-9", "zzzz"),
    );
    assert_eq!(answer, ServerHello::SubDomainInUse);
    assert_eq!(registry.lookup("a1b2.tunnel.example"), Some(client("c-2")));
}

#[test]
fn resume_with_a_refused_token_fails_authentication() {
    let mut registry = RoutingRegistry::new();
    let expired = token_for("a1b2", "c-1", 1_000);
    let forged = SigKey::from_bytes(vec![9u8; 32]);
    let other = ReconnectTokenPayload {
        sub_domain: "a1b2".to_string(),
        client_id: client("c-1"),
        expires: 1_000,
    }
    .into_token(&forged)
    .unwrap();
    let tokens = vec![(expired, 1_001), (other, 0), (ReconnectToken("??".to_string()), 0)];
    for (token, now) in tokens {
        let answer = answer_hello(
            &mut registry,
            HOST,
            resume(token),
            &key(),
            now,
            None,
            candidate("c-9", "zzzz"),
        );
        assert_eq!(answer, ServerHello::AuthFailed);
    }
    assert_eq!(registry.lookup("a1b2.tunnel.example"), None);
    assert_eq!(registry.lookup("zzzz.tunnel.example"), None);
}

#[test]
fn second_client_asking_for_a_bound_sub_domain() {
    let mut registry = RoutingRegistry::new();
    let first = answer_hello(
        &mut registry,
        HOST,
        keyed(Some("a1b2")),
        &key(),
        0,
        Some(client("c-1")),
        candidate("c-8", "yyyy"),
    );
    assert_eq!(first, success("a1b2", "c-1"));
    let second = answer_hello(
        &mut registry,
        HOST,
        keyed(Some("a1b2")),
        &key(),
        0,
        Some(client("c-2")),
        candidate("c-9", "zzzz"),
    );
    assert_eq!(second, ServerHello::SubDomainInUse);
    assert_eq!(registry.lookup("a1b2.tunnel.example"), Some(client("c-1")));
}

#[test]
fn keyed_hello_with_an_unknown_key() {
    let mut registry = RoutingRegistry::new();
    let answer = answer_hello(
        &mut registry,
        HOST,
        keyed(Some("a1b2")),
        &key(),
        0,
        None,
        candidate("c-9", "zzzz"),
    );
    assert_eq!(answer, ServerHello::AuthFailed);
    assert_eq!(registry.lookup("a1b2.tunnel.example"), None);
}

#[test]
fn keyed_hello_without_a_name_gets_the_candidates() {
    let mut registry = RoutingRegistry::new();
    let answer = answer_hello(
        &mut registry,
        HOST,
        keyed(None),
        &key(),
        0,
        Some(client("c-1")),
        candidate("c-9", "zzzz"),
    );
    assert_eq!(answer, success("zzzz", "c-1"));
}

#[test]
fn invalid_requested_sub_domain_is_refused_first() {
    let mut registry = RoutingRegistry::new();
    let hellos = vec![
        keyed(Some("Not Valid")),
        ClientHello { sub_domain: Some("-x".to_string()), auth: AuthMode::Anonymous },
        ClientHello {
            sub_domain: Some(String::new()),
            auth: AuthMode::Resume(token_for("a1b2", "c-1", 1_000)),
        },
    ];
    for hello in hellos {
        let answer =
            answer_hello(&mut registry, HOST, hello, &key(), 0, None, candidate("c-9", "zzzz"));
        assert_eq!(answer, ServerHello::InvalidSubDomain);
    }
    assert_eq!(registry.lookup("zzzz.tunnel.example"), None);
}

#[test]
fn grant_cases() {
    let mut registry = RoutingRegistry::new();
    assert_eq!(
        grant(&mut registry, HOST, client("c-1"), "bad name".to_string()),
        ServerHello::InvalidSubDomain
    );
    assert_eq!(grant(&mut registry, HOST, client("c-1"), "a1b2".to_string()), success("a1b2", "c-1"));
    assert_eq!(grant(&mut registry, HOST, client("c-1"), "a1b2".to_string()), success("a1b2", "c-1"));
    assert_eq!(
        grant(&mut registry, HOST, client("c-2"), "a1b2".to_string()),
        ServerHello::SubDomainInUse
    );
}

#[test]
fn answer_judged_takes_the_verdict_as_given() {
    let mut registry = RoutingRegistry::new();
    let hello = resume(ReconnectToken("anything".to_string()));
    let claim = ReconnectTokenPayload {
        sub_domain: "a1b2".to_string(),
        client_id: client("c-1"),
        expires: 0,
    };
    let answer =
        answer_judged(&mut registry, HOST, hello.clone(), None, Ok(claim), candidate("c-9", "zz"));
    assert_eq!(answer, success("a1b2", "c-1"));
    for e in [Error::Malformed, Error::Base64, Error::InvalidSignature, Error::Expired] {
        let answer =
            answer_judged(&mut registry, HOST, hello.clone(), None, Err(e), candidate("c-9", "zz"));
        assert_eq!(answer, ServerHello::AuthFailed);
    }
}
