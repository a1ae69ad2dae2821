//! The legacy v1/v2 packet header: a fixed 24-byte prefix with an explicit
//! timestamp field.

use vstd::prelude::*;

use crate::bytes_be::{
    push_u16_be, push_u32_be, push_u64_be, read_u16_be, read_u32_be, read_u64_be, u16_be, u16_from_be, u32_be,
    u32_from_be, u64_be, u64_from_be,
};
use crate::error::AkariError;
use crate::header_v3::{MAGIC_0, MAGIC_1};

verus! {

/// Fixed length of a v1/v2 header.
pub const HEADER_LEN: usize = 24;

/// Version byte of the v1 wire format.
pub const VERSION_V1: u8 = 0x01;

/// Version byte of the v2 wire format.
pub const VERSION_V2: u8 = 0x02;

/// v1/v2 message types.
#[derive(Debug, Clone, Copy, PartialEq, Eq, Structural)]
pub enum MessageType {
    Req,
    Resp,
    Ack,
    Nack,
    Error,
}

/// The byte a message type is encoded as.
pub open spec fn message_type_byte(t: MessageType) -> u8 {
    match t {
        MessageType::Req => 0,
        MessageType::Resp => 1,
        MessageType::Ack => 2,
        MessageType::Nack => 3,
        MessageType::Error => 4,
    }
}

/// The message type a (version, byte) pair decodes to. v1 knows Req, Resp
/// and Error, and accepts type byte 4 as Error for compatibility with old
/// senders; v2 knows all five.
pub open spec fn spec_message_type(version: u8, b: u8) -> Option<MessageType> {
    if version == VERSION_V1 {
        if b == 0 {
            Some(MessageType::Req)
        } else if b == 1 {
            Some(MessageType::Resp)
        } else if b == 2 || b == 4 {
            Some(MessageType::Error)
        } else {
            None
        }
    } else {
        if b == 0 {
            Some(MessageType::Req)
        } else if b == 1 {
            Some(MessageType::Resp)
        } else if b == 2 {
            Some(MessageType::Ack)
        } else if b == 3 {
            Some(MessageType::Nack)
        } else if b == 4 {
            Some(MessageType::Error)
        } else {
            None
        }
    }
}

impl MessageType {
    /// The wire byte of this message type.
    pub fn to_byte(self) -> (r: u8)
        ensures
            r == message_type_byte(self),
    {
        match self {
            MessageType::Req => 0,
            MessageType::Resp => 1,
            MessageType::Ack => 2,
            MessageType::Nack => 3,
            MessageType::Error => 4,
        }
    }
}

/// The common part of every v1/v2 packet.
#[derive(Debug, Clone, Copy, PartialEq, Eq, Structural)]
pub struct Header {
    pub version: u8,
    pub message_type: MessageType,
    pub flags: u8,
    pub reserved: u8,
    pub message_id: u64,
    pub seq: u16,
    pub seq_total: u16,
    pub payload_len: u16,
    pub timestamp: u32,
}

/// The wire bytes of a v1/v2 header.
pub open spec fn spec_header_bytes(h: Header) -> Seq<u8> {
    seq![MAGIC_0, MAGIC_1, h.version, message_type_byte(h.message_type), h.flags, h.reserved]
        + u64_be(h.message_id) + u16_be(h.seq) + u16_be(h.seq_total) + u16_be(h.payload_len)
        + u32_be(h.timestamp)
}

/// The header parsed from the front of a byte string, mirroring the decode
/// order of the wire format.
pub open spec fn spec_parse_header(bytes: Seq<u8>) -> Result<Header, AkariError> {
    if bytes.len() < HEADER_LEN {
        Err(AkariError::InvalidHeaderLength(bytes.len() as usize))
    } else if bytes[0] != MAGIC_0 || bytes[1] != MAGIC_1 {
        Err(AkariError::InvalidMagic([bytes[0], bytes[1]]))
    } else if bytes[2] != VERSION_V1 && bytes[2] != VERSION_V2 {
        Err(AkariError::UnsupportedVersion(bytes[2]))
    } else {
        match spec_message_type(bytes[2], bytes[3]) {
            None => Err(AkariError::UnknownMessageType(bytes[3])),
            Some(t) => Ok(
                Header {
                    version: bytes[2],
                    message_type: t,
                    flags: bytes[4],
                    reserved: bytes[5],
                    message_id: u64_from_be(bytes.subrange(6, 14)),
                    seq: u16_from_be(bytes[14], bytes[15]),
                    seq_total: u16_from_be(bytes[16], bytes[17]),
                    payload_len: u16_from_be(bytes[18], bytes[19]),
                    timestamp: u32_from_be(bytes[20], bytes[21], bytes[22], bytes[23]),
                },
            ),
        }
    }
}

/// A header whose version and type byte decode back to themselves: the
/// version is v1 or v2, and the type exists in that version.
pub open spec fn header_canonical(h: Header) -> bool {
    &&& h.version == VERSION_V1 || h.version == VERSION_V2
    &&& spec_message_type(h.version, message_type_byte(h.message_type)) == Some(h.message_type)
}

impl Header {
    /// Serialize the header.
    pub fn to_bytes(&self) -> (r: Vec<u8>)
        ensures
            r@ == spec_header_bytes(*self),
            r@.len() == HEADER_LEN,
    {
        let mut buf: Vec<u8> = Vec::new();
        buf.push(MAGIC_0);
        buf.push(MAGIC_1);
        buf.push(self.version);
        buf.push(self.message_type.to_byte());
        buf.push(self.flags);
        buf.push(self.reserved);
        push_u64_be(&mut buf, self.message_id);
        push_u16_be(&mut buf, self.seq);
        push_u16_be(&mut buf, self.seq_total);
        push_u16_be(&mut buf, self.payload_len);
        push_u32_be(&mut buf, self.timestamp);
        assert(buf@ =~= spec_header_bytes(*self));
        buf
    }

    /// Parse a header from the front of a datagram.
    pub fn from_bytes(bytes: &[u8]) -> (r: Result<Header, AkariError>)
        ensures
            r == spec_parse_header(bytes@),
    {
        if bytes.len() < HEADER_LEN {
            return Err(AkariError::InvalidHeaderLength(bytes.len()));
        }
        if bytes[0] != MAGIC_0 || bytes[1] != MAGIC_1 {
            return Err(AkariError::InvalidMagic([bytes[0], bytes[1]]));
        }
        let version = bytes[2];
        if version != VERSION_V1 && version != VERSION_V2 {
            return Err(AkariError::UnsupportedVersion(version));
        }
        let type_byte = bytes[3];
        let message_type = if version == VERSION_V1 {
            match type_byte {
                0 => MessageType::Req,
                1 => MessageType::Resp,
                2 => MessageType::Error,
                4 => MessageType::Error,
                _ => {
                    return Err(AkariError::UnknownMessageType(type_byte));
                },
            }
        } else {
            match type_byte {
                0 => MessageType::Req,
                1 => MessageType::Resp,
                2 => MessageType::Ack,
                3 => MessageType::Nack,
                4 => MessageType::Error,
                _ => {
                    return Err(AkariError::UnknownMessageType(type_byte));
                },
            }
        };
        Ok(
            Header {
                version,
                message_type,
                flags: bytes[4],
                reserved: bytes[5],
                message_id: read_u64_be(bytes, 6),
                seq: read_u16_be(bytes, 14),
                seq_total: read_u16_be(bytes, 16),
                payload_len: read_u16_be(bytes, 18),
                timestamp: read_u32_be(bytes, 20),
            },
        )
    }
}

/// Round trip: parsing the serialized header, with anything after it, gives
/// back the header, provided its type exists in its version.
pub proof fn lemma_header_round_trip(h: Header, rest: Seq<u8>)
    requires
        header_canonical(h),
    ensures
        spec_parse_header(spec_header_bytes(h) + rest) == Ok::<Header, AkariError>(h),
{
    let bytes = spec_header_bytes(h) + rest;
    assert(bytes.len() >= HEADER_LEN);
    assert(bytes[0] == MAGIC_0 && bytes[1] == MAGIC_1);
    assert(bytes[2] == h.version && bytes[3] == message_type_byte(h.message_type));
    assert(bytes[4] == h.flags && bytes[5] == h.reserved);
    crate::bytes_be::lemma_u64_be_round_trip(h.message_id);
    assert(bytes.subrange(6, 14) =~= u64_be(h.message_id));
    crate::bytes_be::lemma_u16_be_round_trip(h.seq);
    crate::bytes_be::lemma_u16_be_round_trip(h.seq_total);
    crate::bytes_be::lemma_u16_be_round_trip(h.payload_len);
    crate::bytes_be::lemma_u32_be_round_trip(h.timestamp);
    assert(bytes[14] == u16_be(h.seq)[0] && bytes[15] == u16_be(h.seq)[1]);
    assert(bytes[16] == u16_be(h.seq_total)[0] && bytes[17] == u16_be(h.seq_total)[1]);
    assert(bytes[18] == u16_be(h.payload_len)[0] && bytes[19] == u16_be(h.payload_len)[1]);
    assert(bytes[20] == u32_be(h.timestamp)[0] && bytes[21] == u32_be(h.timestamp)[1] && bytes[22]
        == u32_be(h.timestamp)[2] && bytes[23] == u32_be(h.timestamp)[3]);
}

} // verus!
