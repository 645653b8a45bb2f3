use portalgun::error::Error;
use portalgun::ids::ReconnectToken;
use portalgun::ids::StreamId;
use portalgun::streams::ActiveStreams;
use portalgun::mux::Multiplexer;
use portalgun::mux::StreamAction;
use portalgun::mux::StreamMessage;
use portalgun::mux::GRACE_PERIOD_SECS;
use portalgun::packet::ControlPacket;

fn data(id: u64, bytes: &[u8]) -> ControlPacket {
    ControlPacket::Data(StreamId(id), bytes.to_vec())
}

fn forward(id: u64, bytes: &[u8]) -> StreamAction {
    StreamAction::Forward { id: StreamId(id), message: StreamMessage::Data(bytes.to_vec()) }
}

#[test]
fn first_data_opens_the_stream_with_those_bytes() {
    let mut mux = Multiplexer::new(None);
    let request = b"GET / HTTP/1.1\r\nHost: a1b2\r\n\r\n";
    let action = mux.on_packet(data(5, request)).unwrap();
    assert_eq!(action, StreamAction::Open { id: StreamId(5), data: request.to_vec() });
    assert!(mux.is_active(StreamId(5)));
    assert!(!mux.is_closing(StreamId(5)));
    assert_eq!(mux.pending(), 0);
}

#[test]
fn one_open_however_many_data_packets_arrive() {
    let mut mux = Multiplexer::new(None);
    let mut opens = 0;
    for n in 0..50u8 {
        match mux.on_packet(data(5, &[n])).unwrap() {
            StreamAction::Open { id, data } => {
                assert_eq!(id, StreamId(5));
                assert_eq!(data, vec![n]);
                opens += 1;
            }
            other => assert_eq!(other, forward(5, &[n])),
        }
    }
    assert_eq!(opens, 1);
}

#[test]
fn one_open_per_stream_with_streams_interleaved() {
    let mut mux = Multiplexer::new(None);
    let mut opened = Vec::new();
    for n in 0..30u64 {
        let id = n % 3;
        let packets =
            vec![ControlPacket::Init(StreamId(id)), data(id, b"x"), ControlPacket::Ping(None)];
        for packet in packets {
            if let StreamAction::Open { id, .. } = mux.on_packet(packet).unwrap() {
                opened.push(id.0);
            }
        }
    }
    assert_eq!(opened, vec![0, 1, 2]);
}

#[test]
fn init_asks_for_nothing_and_registers_nothing() {
    let mut mux = Multiplexer::new(None);
    assert_eq!(mux.on_packet(ControlPacket::Init(StreamId(5))).unwrap(), StreamAction::Nothing);
    assert!(!mux.is_active(StreamId(5)));
    assert_eq!(mux.pending(), 0);
}

#[test]
fn refused_is_a_malformed_message() {
    let mut mux = Multiplexer::new(None);
    mux.on_packet(data(5, b"x")).unwrap();
    let r = mux.on_packet(ControlPacket::Refused(StreamId(5)));
    assert_eq!(r, Err(Error::MalformedMessageFromServer));
    assert!(mux.is_active(StreamId(5)));
    assert_eq!(mux.pending(), 0);
}

#[test]
fn end_then_grace_closes_once() {
    let mut mux = Multiplexer::new(None);
    mux.on_packet(data(5, b"x")).unwrap();
    let action = mux.on_packet(ControlPacket::End(StreamId(5))).unwrap();
    assert_eq!(action, StreamAction::ScheduleClose { id: StreamId(5) });
    assert!(mux.is_active(StreamId(5)));
    assert!(mux.is_closing(StreamId(5)));
    let action = mux.grace_elapsed(StreamId(5));
    assert_eq!(action, StreamAction::Forward { id: StreamId(5), message: StreamMessage::Close });
    assert!(!mux.is_active(StreamId(5)));
    assert_eq!(mux.grace_elapsed(StreamId(5)), StreamAction::Nothing);
}

#[test]
fn second_end_starts_no_second_grace_period() {
    let mut mux = Multiplexer::new(None);
    mux.on_packet(data(5, b"x")).unwrap();
    mux.on_packet(ControlPacket::End(StreamId(5))).unwrap();
    let again = mux.on_packet(ControlPacket::End(StreamId(5))).unwrap();
    assert_eq!(again, StreamAction::Nothing);
}

#[test]
fn end_of_a_stream_that_is_not_live_asks_for_nothing() {
    let mut mux = Multiplexer::new(None);
    assert_eq!(mux.on_packet(ControlPacket::End(StreamId(5))).unwrap(), StreamAction::Nothing);
    assert_eq!(mux.grace_elapsed(StreamId(5)), StreamAction::Nothing);
    assert!(!mux.is_active(StreamId(5)));
}

#[test]
fn data_during_the_grace_period_is_still_forwarded() {
    let mut mux = Multiplexer::new(None);
    mux.on_packet(data(5, b"x")).unwrap();
    mux.on_packet(ControlPacket::End(StreamId(5))).unwrap();
    assert_eq!(mux.on_packet(data(5, b"tail")).unwrap(), forward(5, b"tail"));
}

#[test]
fn grace_without_end_closes_nothing() {
    let mut mux = Multiplexer::new(None);
    mux.on_packet(data(5, b"x")).unwrap();
    assert_eq!(mux.grace_elapsed(StreamId(5)), StreamAction::Nothing);
    assert!(mux.is_active(StreamId(5)));
}

#[test]
fn data_after_close_opens_anew() {
    let mut mux = Multiplexer::new(None);
    mux.on_packet(data(5, b"x")).unwrap();
    mux.on_packet(ControlPacket::End(StreamId(5))).unwrap();
    mux.grace_elapsed(StreamId(5));
    let action = mux.on_packet(data(5, b"y")).unwrap();
    assert_eq!(action, StreamAction::Open { id: StreamId(5), data: b"y".to_vec() });
}

#[test]
fn ping_with_token_captures_it_and_is_acknowledged_once() {
    let mut mux = Multiplexer::new(Some(ReconnectToken("old".to_string())));
    let ping = ControlPacket::Ping(Some(ReconnectToken("new".to_string())));
    assert_eq!(mux.on_packet(ping).unwrap(), StreamAction::Nothing);
    assert_eq!(mux.captured_token(), Some(ReconnectToken("new".to_string())));
    assert_eq!(mux.pending(), 1);
    assert_eq!(mux.next_frame(), Some(vec![5, 0]));
    assert_eq!(mux.next_frame(), None);
}

#[test]
fn ping_without_token_keeps_the_captured_one() {
    let mut mux = Multiplexer::new(Some(ReconnectToken("old".to_string())));
    mux.on_packet(ControlPacket::Ping(None)).unwrap();
    assert_eq!(mux.captured_token(), Some(ReconnectToken("old".to_string())));
    assert_eq!(mux.next_frame(), Some(vec![5, 0]));
    let mut fresh = Multiplexer::new(None);
    fresh.on_packet(ControlPacket::Ping(None)).unwrap();
    assert_eq!(fresh.captured_token(), None);
}

#[test]
fn outbound_packets_are_written_in_the_order_enqueued() {
    let mut mux = Multiplexer::new(None);
    let o1 = data(1, b"first");
    let o2 = data(1, b"second");
    let o3 = ControlPacket::End(StreamId(1));
    mux.enqueue(o1.clone());
    mux.enqueue(o2.clone());
    mux.enqueue(o3.clone());
    assert_eq!(mux.pending(), 3);
    assert_eq!(mux.next_frame(), Some(o1.serialize()));
    assert_eq!(mux.next_frame(), Some(o2.serialize()));
    assert_eq!(mux.next_frame(), Some(o3.serialize()));
    assert_eq!(mux.next_frame(), None);
}

#[test]
fn forward_unavailable_refuses_the_stream() {
    let mut mux = Multiplexer::new(None);
    mux.on_packet(data(5, b"x")).unwrap();
    mux.forward_unavailable(StreamId(5));
    assert!(!mux.is_active(StreamId(5)));
    assert_eq!(mux.next_frame(), Some(vec![3, 5, 0, 0, 0, 0, 0, 0, 0]));
    assert_eq!(mux.next_frame(), None);
}

#[test]
fn process_message_decodes_and_handles() {
    let mut mux = Multiplexer::new(None);
    let bytes = data(5, b"GET").serialize();
    let action = mux.process_control_flow_message(&bytes).unwrap();
    assert_eq!(action, StreamAction::Open { id: StreamId(5), data: b"GET".to_vec() });
    let action = mux.process_control_flow_message(&bytes).unwrap();
    assert_eq!(action, forward(5, b"GET"));
}

#[test]
fn process_message_refuses_malformed_bytes() {
    let mut mux = Multiplexer::new(None);
    for bytes in [vec![], vec![9u8], vec![1, 2, 3], vec![3, 5, 0, 0, 0, 0, 0, 0, 0]] {
        let r = mux.process_control_flow_message(&bytes);
        assert_eq!(r, Err(Error::MalformedMessageFromServer));
    }
    assert_eq!(mux.pending(), 0);
}

#[test]
fn shutdown_hands_back_every_live_stream_once() {
    let mut mux = Multiplexer::new(Some(ReconnectToken("t".to_string())));
    for id in [3u64, 1, 2, 3, 1] {
        mux.on_packet(data(id, b"x")).unwrap();
    }
    mux.on_packet(ControlPacket::End(StreamId(2))).unwrap();
    let mut ids: Vec<u64> = mux.shutdown().iter().map(|id| id.0).collect();
    ids.sort();
    assert_eq!(ids, vec![1, 2, 3]);
    for id in [1u64, 2, 3] {
        assert!(!mux.is_active(StreamId(id)));
    }
    assert!(mux.shutdown().is_empty());
    assert_eq!(mux.captured_token(), Some(ReconnectToken("t".to_string())));
}

#[test]
fn active_streams_registry() {
    let mut streams = ActiveStreams::new();
    assert!(!streams.contains(StreamId(1)));
    assert!(streams.register(StreamId(1)));
    assert!(!streams.register(StreamId(1)));
    assert!(streams.register(StreamId(2)));
    assert!(streams.contains(StreamId(1)));
    assert!(!streams.is_closing(StreamId(1)));
    assert!(streams.start_closing(StreamId(1)));
    assert!(!streams.start_closing(StreamId(1)));
    assert!(!streams.start_closing(StreamId(9)));
    assert!(streams.is_closing(StreamId(1)));
    assert!(!streams.is_closing(StreamId(2)));
    assert!(streams.remove(StreamId(1)));
    assert!(!streams.remove(StreamId(1)));
    assert!(!streams.contains(StreamId(1)));
    assert!(streams.contains(StreamId(2)));
    assert_eq!(streams.drain(), vec![StreamId(2)]);
    assert!(!streams.contains(StreamId(2)));
}

#[test]
fn grace_period_is_five_seconds() {
    assert_eq!(GRACE_PERIOD_SECS, 5);
}

#[test]
fn take_frames_hands_out_everything_in_the_order_enqueued() {
    let mut mux = Multiplexer::new(None);
    assert!(mux.take_frames().is_empty());
    let packets = vec![
        data(1, b"first"),
        data(2, b"other stream"),
        data(1, b"second"),
        ControlPacket::End(StreamId(1)),
        ControlPacket::Ping(None),
    ];
    for packet in &packets {
        mux.enqueue(packet.clone());
    }
    let expected: Vec<Vec<u8>> = packets.into_iter().map(|p| p.serialize()).collect();
    assert_eq!(mux.take_frames(), expected);
    assert_eq!(mux.pending(), 0);
    assert!(mux.take_frames().is_empty());
}
