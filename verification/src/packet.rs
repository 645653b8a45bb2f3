//! The control packet codec: one tag byte, then what the variant carries.
//!
//! | packet            | bytes                                              |
//! |-------------------|----------------------------------------------------|
//! | `Init(id)`        | `1`, the id (8 bytes, little-endian)               |
//! | `Data(id, bytes)` | `2`, the id, the length (8 bytes), the bytes       |
//! | `Refused(id)`     | `3`, the id                                        |
//! | `End(id)`         | `4`, the id                                        |
//! | `Ping(None)`      | `5`, `0`                                           |
//! | `Ping(Some(t))`   | `5`, `1`, the length (8 bytes), the token as UTF-8 |
//!
//! Every packet has exactly one encoding, and nothing else decodes.

use crate::ids::ReconnectToken;
use crate::ids::StreamId;
use crate::wire::append_bytes;
use crate::wire::bytes_of_text;
use crate::wire::text_of_bytes;
use vstd::bytes::*;
use vstd::prelude::*;
use vstd::slice::*;
use vstd::utf8::*;

verus! {

pub const TAG_INIT: u8 = 1;

pub const TAG_DATA: u8 = 2;

pub const TAG_REFUSED: u8 = 3;

pub const TAG_END: u8 = 4;

pub const TAG_PING: u8 = 5;

/// One unit of the multiplexing protocol.
#[derive(Clone, Debug, PartialEq, Eq)]
pub enum ControlPacket {
    Init(StreamId),
    Data(StreamId, Vec<u8>),
    Refused(StreamId),
    End(StreamId),
    Ping(Option<ReconnectToken>),
}

/// What a control packet is, apart from how it is held in memory.
pub enum PacketView {
    Init(u64),
    Data(u64, Seq<u8>),
    Refused(u64),
    End(u64),
    Ping(Option<Seq<char>>),
}

impl View for ControlPacket {
    type V = PacketView;

    open spec fn view(&self) -> PacketView {
        match self {
            ControlPacket::Init(id) => PacketView::Init(id.0),
            ControlPacket::Data(id, bytes) => PacketView::Data(id.0, bytes@),
            ControlPacket::Refused(id) => PacketView::Refused(id.0),
            ControlPacket::End(id) => PacketView::End(id.0),
            ControlPacket::Ping(None) => PacketView::Ping(None),
            ControlPacket::Ping(Some(token)) => PacketView::Ping(Some(token@)),
        }
    }
}

/// Why some bytes are no control packet.
#[derive(Clone, Copy, Debug, PartialEq, Eq, Structural)]
pub enum PacketError {
    /// The bytes end before the packet does.
    Truncated,
    /// The first byte names no packet variant, or the byte that says whether
    /// a ping carries a token is neither 0 nor 1.
    UnknownTag,
    /// Bytes follow the end of the packet.
    TrailingBytes,
    /// A ping's token is not UTF-8.
    InvalidToken,
}

/// The bytes of a packet that carries only a stream id.
pub open spec fn id_packet_bytes(tag: u8, id: u64) -> Seq<u8> {
    seq![tag] + spec_u64_to_le_bytes(id)
}

/// The one encoding of a packet.
pub open spec fn packet_bytes(packet: PacketView) -> Seq<u8> {
    match packet {
        PacketView::Init(id) => id_packet_bytes(TAG_INIT, id),
        PacketView::Data(id, bytes) => id_packet_bytes(TAG_DATA, id) + spec_u64_to_le_bytes(
            bytes.len() as u64,
        ) + bytes,
        PacketView::Refused(id) => id_packet_bytes(TAG_REFUSED, id),
        PacketView::End(id) => id_packet_bytes(TAG_END, id),
        PacketView::Ping(None) => seq![TAG_PING, 0u8],
        PacketView::Ping(Some(token)) => seq![TAG_PING, 1u8] + spec_u64_to_le_bytes(
            encode_utf8(token).len() as u64,
        ) + encode_utf8(token),
    }
}

/// Whether a packet is small enough to exist in memory on any machine.
pub open spec fn representable(packet: PacketView) -> bool {
    match packet {
        PacketView::Data(_, bytes) => bytes.len() <= u64::MAX,
        PacketView::Ping(Some(token)) => encode_utf8(token).len() <= u64::MAX,
        _ => true,
    }
}

/// Decodes a packet that carries only a stream id.
pub open spec fn parse_id_packet(input: Seq<u8>) -> Result<u64, PacketError> {
    if input.len() < 9 {
        Err(PacketError::Truncated)
    } else if input.len() > 9 {
        Err(PacketError::TrailingBytes)
    } else {
        Ok(spec_u64_from_le_bytes(input.subrange(1, 9)))
    }
}

/// Decodes the counted bytes that start at `at` and must end with the input.
pub open spec fn parse_counted(input: Seq<u8>, at: int) -> Result<Seq<u8>, PacketError> {
    if input.len() < at + 8 {
        Err(PacketError::Truncated)
    } else {
        let n = spec_u64_from_le_bytes(input.subrange(at, at + 8)) as int;
        if input.len() - (at + 8) < n {
            Err(PacketError::Truncated)
        } else if input.len() - (at + 8) > n {
            Err(PacketError::TrailingBytes)
        } else {
            Ok(input.skip(at + 8))
        }
    }
}

/// What the bytes decode to: a packet, or the reason why they are none.
pub open spec fn parse_packet(input: Seq<u8>) -> Result<PacketView, PacketError> {
    if input.len() == 0 {
        Err(PacketError::Truncated)
    } else if input[0] == TAG_INIT {
        match parse_id_packet(input) {
            Ok(id) => Ok(PacketView::Init(id)),
            Err(e) => Err(e),
        }
    } else if input[0] == TAG_REFUSED {
        match parse_id_packet(input) {
            Ok(id) => Ok(PacketView::Refused(id)),
            Err(e) => Err(e),
        }
    } else if input[0] == TAG_END {
        match parse_id_packet(input) {
            Ok(id) => Ok(PacketView::End(id)),
            Err(e) => Err(e),
        }
    } else if input[0] == TAG_DATA {
        if input.len() < 9 {
            Err(PacketError::Truncated)
        } else {
            match parse_counted(input, 9) {
                Ok(bytes) => Ok(
                    PacketView::Data(spec_u64_from_le_bytes(input.subrange(1, 9)), bytes),
                ),
                Err(e) => Err(e),
            }
        }
    } else if input[0] == TAG_PING {
        if input.len() < 2 {
            Err(PacketError::Truncated)
        } else if input[1] == 0 {
            if input.len() > 2 {
                Err(PacketError::TrailingBytes)
            } else {
                Ok(PacketView::Ping(None))
            }
        } else if input[1] == 1 {
            match parse_counted(input, 2) {
                Ok(bytes) => if valid_utf8(bytes) {
                    Ok(PacketView::Ping(Some(decode_utf8(bytes))))
                } else {
                    Err(PacketError::InvalidToken)
                },
                Err(e) => Err(e),
            }
        } else {
            Err(PacketError::UnknownTag)
        }
    } else {
        Err(PacketError::UnknownTag)
    }
}

/// Decoding undoes encoding.
pub proof fn lemma_packet_round_trip(packet: PacketView)
    requires
        representable(packet),
    ensures
        parse_packet(packet_bytes(packet)) == Ok::<PacketView, PacketError>(packet),
{
    lemma_auto_spec_u64_to_from_le_bytes();
    broadcast use {encode_utf8_valid_utf8, encode_utf8_decode_utf8};

    let b = packet_bytes(packet);
    match packet {
        PacketView::Init(id) => {
            assert(b.subrange(1, 9) =~= spec_u64_to_le_bytes(id));
        },
        PacketView::Refused(id) => {
            assert(b.subrange(1, 9) =~= spec_u64_to_le_bytes(id));
        },
        PacketView::End(id) => {
            assert(b.subrange(1, 9) =~= spec_u64_to_le_bytes(id));
        },
        PacketView::Data(id, bytes) => {
            assert(b.subrange(1, 9) =~= spec_u64_to_le_bytes(id));
            assert(b.subrange(9, 17) =~= spec_u64_to_le_bytes(bytes.len() as u64));
            assert(b.skip(17) =~= bytes);
        },
        PacketView::Ping(None) => {},
        PacketView::Ping(Some(token)) => {
            let text = encode_utf8(token);
            assert(b.subrange(2, 10) =~= spec_u64_to_le_bytes(text.len() as u64));
            assert(b.skip(10) =~= text);
        },
    }
}

/// Only a packet's own encoding decodes to it: no packet has two encodings.
pub proof fn lemma_packet_canonical(input: Seq<u8>)
    requires
        parse_packet(input) is Ok,
    ensures
        packet_bytes(parse_packet(input)->Ok_0) == input,
        representable(parse_packet(input)->Ok_0),
{
    lemma_auto_spec_u64_to_from_le_bytes();
    broadcast use decode_utf8_encode_utf8;

    let packet = parse_packet(input)->Ok_0;
    let b = packet_bytes(packet);
    if input[0] == TAG_INIT || input[0] == TAG_REFUSED || input[0] == TAG_END {
        assert(spec_u64_to_le_bytes(spec_u64_from_le_bytes(input.subrange(1, 9)))
            == input.subrange(1, 9));
        assert(b =~= input);
    } else if input[0] == TAG_DATA {
        assert(spec_u64_to_le_bytes(spec_u64_from_le_bytes(input.subrange(1, 9)))
            == input.subrange(1, 9));
        assert(spec_u64_to_le_bytes(spec_u64_from_le_bytes(input.subrange(9, 17)))
            == input.subrange(9, 17));
        assert(b =~= input);
    } else if input[1] == 0 {
        assert(b =~= input);
    } else {
        assert(spec_u64_to_le_bytes(spec_u64_from_le_bytes(input.subrange(2, 10)))
            == input.subrange(2, 10));
        assert(b =~= input);
    }
}

/// Two packets with the same encoding are the same packet.
pub proof fn lemma_packet_bytes_injective(a: PacketView, b: PacketView)
    requires
        representable(a),
        representable(b),
        packet_bytes(a) == packet_bytes(b),
    ensures
        a == b,
{
    lemma_packet_round_trip(a);
    lemma_packet_round_trip(b);
}

/// Reads the stream id that follows the tag byte.
fn read_id(data: &[u8]) -> (id: StreamId)
    requires
        data@.len() >= 9,
    ensures
        id.0 == spec_u64_from_le_bytes(data@.subrange(1, 9)),
{
    StreamId(u64_from_le_bytes(slice_subrange(data, 1, 9)))
}

/// Reads the counted bytes that start at `at` and must end with the input.
fn read_counted(data: &[u8], at: usize) -> (r: Result<Vec<u8>, PacketError>)
    requires
        at <= data@.len(),
        at <= 9,
    ensures
        match r {
            Ok(bytes) => parse_counted(data@, at as int) == Ok::<Seq<u8>, PacketError>(bytes@),
            Err(e) => parse_counted(data@, at as int) == Err::<Seq<u8>, PacketError>(e),
        },
{
    if data.len() < at + 8 {
        return Err(PacketError::Truncated);
    }
    let n: u64 = u64_from_le_bytes(slice_subrange(data, at, at + 8));
    let rest: usize = data.len() - (at + 8);
    if (rest as u64) < n {
        return Err(PacketError::Truncated);
    }
    if (rest as u64) > n {
        return Err(PacketError::TrailingBytes);
    }
    let bytes = slice_to_vec(slice_subrange(data, at + 8, data.len()));
    proof {
        assert(data@.subrange(at + 8, data@.len() as int) =~= data@.skip(at + 8));
    }
    Ok(bytes)
}

/// Decodes a packet that carries only a stream id.
fn read_id_packet(data: &[u8]) -> (r: Result<StreamId, PacketError>)
    ensures
        match r {
            Ok(id) => parse_id_packet(data@) == Ok::<u64, PacketError>(id.0),
            Err(e) => parse_id_packet(data@) == Err::<u64, PacketError>(e),
        },
{
    if data.len() < 9 {
        Err(PacketError::Truncated)
    } else if data.len() > 9 {
        Err(PacketError::TrailingBytes)
    } else {
        Ok(read_id(data))
    }
}

impl ControlPacket {
    /// The packet's encoding.
    pub fn serialize(self) -> (out: Vec<u8>)
        ensures
            out@ == packet_bytes(self@),
    {
        let mut out: Vec<u8> = Vec::new();
        match self {
            ControlPacket::Init(id) => {
                out.push(TAG_INIT);
                append_bytes(&mut out, u64_to_le_bytes(id.0).as_slice());
            },
            ControlPacket::Data(id, bytes) => {
                out.push(TAG_DATA);
                append_bytes(&mut out, u64_to_le_bytes(id.0).as_slice());
                append_bytes(&mut out, u64_to_le_bytes(bytes.len() as u64).as_slice());
                append_bytes(&mut out, bytes.as_slice());
            },
            ControlPacket::Refused(id) => {
                out.push(TAG_REFUSED);
                append_bytes(&mut out, u64_to_le_bytes(id.0).as_slice());
            },
            ControlPacket::End(id) => {
                out.push(TAG_END);
                append_bytes(&mut out, u64_to_le_bytes(id.0).as_slice());
            },
            ControlPacket::Ping(None) => {
                out.push(TAG_PING);
                out.push(0);
            },
            ControlPacket::Ping(Some(token)) => {
                out.push(TAG_PING);
                out.push(1);
                let text = bytes_of_text(token.0.as_str());
                append_bytes(&mut out, u64_to_le_bytes(text.len() as u64).as_slice());
                append_bytes(&mut out, text.as_slice());
            },
        }
        proof {
            assert(out@ =~= packet_bytes(self@));
        }
        out
    }

    /// Decodes one packet from exactly these bytes.
    pub fn deserialize(data: &[u8]) -> (r: Result<ControlPacket, PacketError>)
        ensures
            match r {
                Ok(packet) => parse_packet(data@) == Ok::<PacketView, PacketError>(packet@),
                Err(e) => parse_packet(data@) == Err::<PacketView, PacketError>(e),
            },
    {
        if data.len() == 0 {
            return Err(PacketError::Truncated);
        }
        let tag: u8 = data[0];
        if tag == TAG_INIT {
            match read_id_packet(data) {
                Ok(id) => Ok(ControlPacket::Init(id)),
                Err(e) => Err(e),
            }
        } else if tag == TAG_REFUSED {
            match read_id_packet(data) {
                Ok(id) => Ok(ControlPacket::Refused(id)),
                Err(e) => Err(e),
            }
        } else if tag == TAG_END {
            match read_id_packet(data) {
                Ok(id) => Ok(ControlPacket::End(id)),
                Err(e) => Err(e),
            }
        } else if tag == TAG_DATA {
            if data.len() < 9 {
                return Err(PacketError::Truncated);
            }
            match read_counted(data, 9) {
                Ok(bytes) => Ok(ControlPacket::Data(read_id(data), bytes)),
                Err(e) => Err(e),
            }
        } else if tag == TAG_PING {
            if data.len() < 2 {
                return Err(PacketError::Truncated);
            }
            let flag: u8 = data[1];
            if flag == 0 {
                if data.len() > 2 {
                    Err(PacketError::TrailingBytes)
                } else {
                    Ok(ControlPacket::Ping(None))
                }
            } else if flag == 1 {
                match read_counted(data, 2) {
                    Ok(bytes) => match text_of_bytes(bytes) {
                        Some(text) => Ok(ControlPacket::Ping(Some(ReconnectToken(text)))),
                        None => Err(PacketError::InvalidToken),
                    },
                    Err(e) => Err(e),
                }
            } else {
                Err(PacketError::UnknownTag)
            }
        } else {
            Err(PacketError::UnknownTag)
        }
    }

    /// The name of the packet's variant.
    pub fn packet_type(&self) -> (name: &'static str)
        ensures
            name@ == match self@ {
                PacketView::Init(_) => "INIT"@,
                PacketView::Data(_, _) => "DATA"@,
                PacketView::Refused(_) => "REFUSED"@,
                PacketView::End(_) => "END"@,
                PacketView::Ping(_) => "PING"@,
            },
    {
        match self {
            ControlPacket::Init(_) => "INIT",
            ControlPacket::Data(_, _) => "DATA",
            ControlPacket::Refused(_) => "REFUSED",
            ControlPacket::End(_) => "END",
            ControlPacket::Ping(_) => "PING",
        }
    }
}

} // verus!
