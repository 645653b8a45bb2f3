use portalgun::handshake::handshake_outcome;
use portalgun::handshake::AuthMode;
use portalgun::handshake::ClientHello;
use portalgun::handshake::HelloReply;
use portalgun::handshake::ServerHello;
use portalgun::ids::ClientId;
use portalgun::ids::StreamId;
use portalgun::mux::Multiplexer;
use portalgun::mux::StreamAction;
use portalgun::packet::ControlPacket;
use portalgun::reconnect_token::ReconnectTokenPayload;
use portalgun::registry::RoutingRegistry;
use portalgun::server_handshake::answer_hello;
use portalgun::server_handshake::Candidate;
use portalgun::session::on_transport_event;
use portalgun::session::CycleEnd;
use portalgun::session::NextStep;
use portalgun::session::ReadStep;
use portalgun::session::Session;
use portalgun::session::TransportEvent;
use portalgun::signature::SigKey;

const HOST: &str = "tunnel.example";

fn draw(id: &str, sub_domain: &str) -> Candidate {
    Candidate { client_id: ClientId(id.to_string()), sub_domain: sub_domain.to_string() }
}

#[test]
fn anonymous_handshake_then_data_without_init() {
    let key = SigKey::from_bytes(vec![1u8; 32]);
    let mut registry = RoutingRegistry::new();
    let session = Session::new();
    let hello = session.hello(None, None);
    assert_eq!(hello, ClientHello { sub_domain: None, auth: AuthMode::Anonymous });
    let reply = answer_hello(&mut registry, HOST, hello, &key, 0, None, draw("c-1", "a1b2"));
    assert_eq!(
        reply,
        ServerHello::Success {
            sub_domain: "a1b2".to_string(),
            client_id: ClientId("c-1".to_string())
        }
    );
    let granted = handshake_outcome(HelloReply::Hello(reply)).unwrap();
    assert_eq!(granted.sub_domain, "a1b2");
    assert_eq!(granted.client_id, ClientId("c-1".to_string()));

    let mut mux = Multiplexer::new(None);
    let request = b"GET / HTTP/1.1\r\nHost: a1b2.tunnel.example\r\n\r\n".to_vec();
    let wire = ControlPacket::Data(StreamId(5), request.clone()).serialize();
    let step = on_transport_event(&mut mux, TransportEvent::Message(wire));
    assert_eq!(step, ReadStep::Act(StreamAction::Open { id: StreamId(5), data: request }));
    assert!(mux.is_active(StreamId(5)));
}

#[test]
fn reconnect_with_a_captured_token_keeps_name_and_identity() {
    let key = SigKey::from_bytes(vec![1u8; 32]);
    let mut registry = RoutingRegistry::new();
    let mut session = Session::new();
    let first = answer_hello(
        &mut registry,
        HOST,
        session.hello(None, None),
        &key,
        100,
        None,
        draw("c-1", "a1b2"),
    );
    let granted = handshake_outcome(HelloReply::Hello(first)).unwrap();

    let claim = ReconnectTokenPayload {
        sub_domain: granted.sub_domain.clone(),
        client_id: granted.client_id.clone(),
        expires: 400,
    };
    let token = claim.into_token(&key).unwrap();
    let mut mux = Multiplexer::new(session.reconnect_token.clone());
    let ping = ControlPacket::Ping(Some(token.clone())).serialize();
    let step = on_transport_event(&mut mux, TransportEvent::Message(ping));
    assert_eq!(step, ReadStep::Act(StreamAction::Nothing));
    assert_eq!(mux.captured_token(), Some(token.clone()));
    assert_eq!(mux.next_frame(), Some(ControlPacket::Ping(None).serialize()));
    assert_eq!(mux.next_frame(), None);

    let dropped = on_transport_event(&mut mux, TransportEvent::Ended);
    let failure = match dropped {
        ReadStep::Failed(e) => e,
        other => panic!("{:?}", other),
    };
    mux.shutdown();
    registry.unbind(&granted.client_id);
    let next = session.end_cycle(CycleEnd::Failed(failure), mux.captured_token());
    assert_eq!(next, NextStep::Reconnect { after_secs: 5 });

    let hello = session.hello(None, None);
    assert_eq!(hello, ClientHello { sub_domain: None, auth: AuthMode::Resume(token) });
    let second = answer_hello(&mut registry, HOST, hello, &key, 200, None, draw("c-7", "q9q9"));
    assert_eq!(
        second,
        ServerHello::Success {
            sub_domain: "a1b2".to_string(),
            client_id: ClientId("c-1".to_string())
        }
    );
    assert_eq!(registry.lookup("a1b2.tunnel.example"), Some(ClientId("c-1".to_string())));
}

#[test]
fn second_client_requests_a_sub_domain_that_is_bound() {
    let key = SigKey::from_bytes(vec![1u8; 32]);
    let mut registry = RoutingRegistry::new();
    let first = answer_hello(
        &mut registry,
        HOST,
        ClientHello { sub_domain: None, auth: AuthMode::Anonymous },
        &key,
        0,
        None,
        draw("c-1", "a1b2"),
    );
    assert!(matches!(first, ServerHello::Success { .. }));
    let second = ClientHello {
        sub_domain: Some("a1b2".to_string()),
        auth: AuthMode::Keyed(portalgun::handshake::SecretKey("s".to_string())),
    };
    let account = Some(ClientId("c-2".to_string()));
    let reply = answer_hello(&mut registry, HOST, second, &key, 0, account, draw("c-3", "zzzz"));
    assert_eq!(reply, ServerHello::SubDomainInUse);
    let e = handshake_outcome(HelloReply::Hello(reply)).unwrap_err();
    assert!(!e.is_retryable());
}

#[test]
fn ping_with_token_mid_session() {
    let mut mux = Multiplexer::new(None);
    mux.on_packet(ControlPacket::Data(StreamId(1), b"x".to_vec())).unwrap();
    let token = portalgun::ids::ReconnectToken("tok".to_string());
    let action = mux.on_packet(ControlPacket::Ping(Some(token.clone()))).unwrap();
    assert_eq!(action, StreamAction::Nothing);
    assert_eq!(mux.captured_token(), Some(token));
    assert_eq!(mux.pending(), 1);
    assert_eq!(mux.next_frame(), Some(vec![5, 0]));
    assert_eq!(mux.pending(), 0);
    assert!(mux.is_active(StreamId(1)));
}
