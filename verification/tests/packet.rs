use portalgun::ids::ReconnectToken;
use portalgun::ids::StreamId;
use portalgun::packet::ControlPacket;
use portalgun::packet::PacketError;

fn id_bytes(tag: u8) -> Vec<u8> {
    vec![tag, 5, 0, 0, 0, 0, 0, 0, 0]
}

fn decode(bytes: &[u8]) -> Result<ControlPacket, PacketError> {
    ControlPacket::deserialize(bytes)
}

#[test]
fn serialize_id_packets() {
    assert_eq!(ControlPacket::Init(StreamId(5)).serialize(), id_bytes(1));
    assert_eq!(ControlPacket::Refused(StreamId(5)).serialize(), id_bytes(3));
    assert_eq!(ControlPacket::End(StreamId(5)).serialize(), id_bytes(4));
    assert_eq!(
        ControlPacket::Init(StreamId(0x0102030405060708)).serialize(),
        vec![1, 8, 7, 6, 5, 4, 3, 2, 1]
    );
}

#[test]
fn serialize_data() {
    let packet = ControlPacket::Data(StreamId(5), b"GET".to_vec());
    assert_eq!(
        packet.serialize(),
        vec![2, 5, 0, 0, 0, 0, 0, 0, 0, 3, 0, 0, 0, 0, 0, 0, 0, b'G', b'E', b'T']
    );
    let empty = ControlPacket::Data(StreamId(u64::MAX), Vec::new());
    assert_eq!(
        empty.serialize(),
        vec![2, 255, 255, 255, 255, 255, 255, 255, 255, 0, 0, 0, 0, 0, 0, 0, 0]
    );
}

#[test]
fn serialize_ping() {
    assert_eq!(ControlPacket::Ping(None).serialize(), vec![5, 0]);
    let with = ControlPacket::Ping(Some(ReconnectToken("ab".to_string())));
    assert_eq!(with.serialize(), vec![5, 1, 2, 0, 0, 0, 0, 0, 0, 0, b'a', b'b']);
    let empty = ControlPacket::Ping(Some(ReconnectToken(String::new())));
    assert_eq!(empty.serialize(), vec![5, 1, 0, 0, 0, 0, 0, 0, 0, 0]);
}

#[test]
fn deserialize_undoes_serialize() {
    let packets = vec![
        ControlPacket::Init(StreamId(0)),
        ControlPacket::Init(StreamId(u64::MAX)),
        ControlPacket::Data(StreamId(5), b"GET / HTTP/1.1\r\n\r\n".to_vec()),
        ControlPacket::Data(StreamId(6), Vec::new()),
        ControlPacket::Data(StreamId(7), vec![0u8; 70_000]),
        ControlPacket::Refused(StreamId(9)),
        ControlPacket::End(StreamId(10)),
        ControlPacket::Ping(None),
        ControlPacket::Ping(Some(ReconnectToken("tok\u{e9}n".to_string()))),
        ControlPacket::Ping(Some(ReconnectToken(String::new()))),
    ];
    for packet in packets {
        let bytes = packet.clone().serialize();
        let back = decode(&bytes).unwrap();
        assert_eq!(back, packet);
        assert_eq!(back.serialize(), bytes);
    }
}

#[test]
fn deserialize_truncated() {
    assert_eq!(decode(&[]).err(), Some(PacketError::Truncated));
    assert_eq!(decode(&[1]).err(), Some(PacketError::Truncated));
    assert_eq!(decode(&id_bytes(1)[..8]).err(), Some(PacketError::Truncated));
    assert_eq!(decode(&id_bytes(2)).err(), Some(PacketError::Truncated));
    assert_eq!(decode(&[2, 1, 2]).err(), Some(PacketError::Truncated));
    let mut data = id_bytes(2);
    data.extend_from_slice(&[3, 0, 0, 0, 0, 0, 0, 0, b'G', b'E']);
    assert_eq!(decode(&data).err(), Some(PacketError::Truncated));
    assert_eq!(decode(&[5]).err(), Some(PacketError::Truncated));
    assert_eq!(decode(&[5, 1]).err(), Some(PacketError::Truncated));
    assert_eq!(decode(&[5, 1, 2, 0, 0, 0, 0, 0, 0, 0, b'a']).err(), Some(PacketError::Truncated));
    let huge = [2, 5, 0, 0, 0, 0, 0, 0, 0, 255, 255, 255, 255, 255, 255, 255, 255, 1];
    assert_eq!(decode(&huge).err(), Some(PacketError::Truncated));
}

#[test]
fn deserialize_trailing_bytes() {
    let mut init = id_bytes(1);
    init.push(0);
    assert_eq!(decode(&init).err(), Some(PacketError::TrailingBytes));
    let mut data = id_bytes(2);
    data.extend_from_slice(&[1, 0, 0, 0, 0, 0, 0, 0, b'G', b'E']);
    assert_eq!(decode(&data).err(), Some(PacketError::TrailingBytes));
    assert_eq!(decode(&[5, 0, 0]).err(), Some(PacketError::TrailingBytes));
    assert_eq!(
        decode(&[5, 1, 0, 0, 0, 0, 0, 0, 0, 0, b'a']).err(),
        Some(PacketError::TrailingBytes)
    );
}

#[test]
fn deserialize_unknown_tag() {
    assert_eq!(decode(&id_bytes(0)).err(), Some(PacketError::UnknownTag));
    assert_eq!(decode(&id_bytes(6)).err(), Some(PacketError::UnknownTag));
    assert_eq!(decode(&[255]).err(), Some(PacketError::UnknownTag));
    assert_eq!(decode(&[5, 2]).err(), Some(PacketError::UnknownTag));
}

#[test]
fn deserialize_invalid_token() {
    let bytes = [5, 1, 2, 0, 0, 0, 0, 0, 0, 0, 0xc3, 0x28];
    assert_eq!(decode(&bytes).err(), Some(PacketError::InvalidToken));
    let lone = [5, 1, 1, 0, 0, 0, 0, 0, 0, 0, 0x80];
    assert_eq!(decode(&lone).err(), Some(PacketError::InvalidToken));
}

#[test]
fn deserialize_ping_token_text() {
    let bytes = [5, 1, 3, 0, 0, 0, 0, 0, 0, 0, b'a', 0xc3, 0xa9];
    match decode(&bytes).unwrap() {
        ControlPacket::Ping(Some(token)) => assert_eq!(token.0, "a\u{e9}"),
        other => panic!("{:?}", other),
    }
}

#[test]
fn packet_type_names() {
    assert_eq!(ControlPacket::Init(StreamId(1)).packet_type(), "INIT");
    assert_eq!(ControlPacket::Data(StreamId(1), Vec::new()).packet_type(), "DATA");
    assert_eq!(ControlPacket::Refused(StreamId(1)).packet_type(), "REFUSED");
    assert_eq!(ControlPacket::End(StreamId(1)).packet_type(), "END");
    assert_eq!(ControlPacket::Ping(None).packet_type(), "PING");
}
