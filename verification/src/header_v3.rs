//! The v3 packet header: fixed prefix, flag semantics, and the
//! variable-width message id.

use vstd::prelude::*;

use crate::bytes_be::{
    push_u16_be, push_u64_be, read_u16_be, read_u64_be, u16_be, u16_from_be, u64_be, u64_from_be,
};
use crate::error::AkariError;

verus! {

/// Version byte of the v3 wire format.
pub const VERSION_V3: u8 = 0x03;

/// Flag: the payload is AEAD-encrypted.
pub const FLAG_ENCRYPT: u8 = 0x80;

/// Flag: the response body is covered by one aggregate tag.
pub const FLAG_AGG_TAG: u8 = 0x40;

/// Flag: the message id is carried in 2 bytes instead of 8.
pub const FLAG_SHORT_ID: u8 = 0x20;

/// Flag: the body length is carried in 3 bytes instead of 4.
pub const FLAG_SHORT_LEN: u8 = 0x10;

/// First magic byte, the ASCII letter A.
pub const MAGIC_0: u8 = 0x41;

/// Second magic byte, the ASCII letter K.
pub const MAGIC_1: u8 = 0x4B;

/// Length of the header without the message id.
pub const FIXED_LEN: usize = 12;

/// v3 packet types.
#[derive(Debug, Clone, Copy, PartialEq, Eq, Structural)]
pub enum PacketTypeV3 {
    Req,
    RespHead,
    RespHeadCont,
    RespBody,
    NackHead,
    NackBody,
    Error,
}

/// The byte a v3 packet type is encoded as.
pub open spec fn packet_type_v3_byte(t: PacketTypeV3) -> u8 {
    match t {
        PacketTypeV3::Req => 0,
        PacketTypeV3::RespHead => 1,
        PacketTypeV3::RespHeadCont => 2,
        PacketTypeV3::RespBody => 3,
        PacketTypeV3::NackHead => 4,
        PacketTypeV3::NackBody => 5,
        PacketTypeV3::Error => 6,
    }
}

/// The v3 packet type a byte decodes to, if any.
pub open spec fn spec_packet_type_v3(b: u8) -> Option<PacketTypeV3> {
    if b == 0 {
        Some(PacketTypeV3::Req)
    } else if b == 1 {
        Some(PacketTypeV3::RespHead)
    } else if b == 2 {
        Some(PacketTypeV3::RespHeadCont)
    } else if b == 3 {
        Some(PacketTypeV3::RespBody)
    } else if b == 4 {
        Some(PacketTypeV3::NackHead)
    } else if b == 5 {
        Some(PacketTypeV3::NackBody)
    } else if b == 6 {
        Some(PacketTypeV3::Error)
    } else {
        None
    }
}

impl PacketTypeV3 {
    /// The wire byte of this packet type.
    pub fn to_byte(self) -> (r: u8)
        ensures
            r == packet_type_v3_byte(self),
    {
        match self {
            PacketTypeV3::Req => 0,
            PacketTypeV3::RespHead => 1,
            PacketTypeV3::RespHeadCont => 2,
            PacketTypeV3::RespBody => 3,
            PacketTypeV3::NackHead => 4,
            PacketTypeV3::NackBody => 5,
            PacketTypeV3::Error => 6,
        }
    }

    /// The packet type a wire byte names, or the byte itself as an error.
    pub fn from_byte(b: u8) -> (r: Result<PacketTypeV3, AkariError>)
        ensures
            r matches Ok(t) ==> spec_packet_type_v3(b) == Some(t),
            r is Err <==> spec_packet_type_v3(b) is None,
            r matches Err(e) ==> e == AkariError::UnknownMessageType(b),
    {
        match b {
            0 => Ok(PacketTypeV3::Req),
            1 => Ok(PacketTypeV3::RespHead),
            2 => Ok(PacketTypeV3::RespHeadCont),
            3 => Ok(PacketTypeV3::RespBody),
            4 => Ok(PacketTypeV3::NackHead),
            5 => Ok(PacketTypeV3::NackBody),
            6 => Ok(PacketTypeV3::Error),
            _ => Err(AkariError::UnknownMessageType(b)),
        }
    }
}

/// The common part of every v3 packet. With FLAG_SHORT_ID only the low 16
/// bits of `message_id` reach the wire.
#[derive(Debug, Clone, Copy, PartialEq, Eq, Structural)]
pub struct HeaderV3 {
    pub packet_type: PacketTypeV3,
    pub flags: u8,
    pub message_id: u64,
    pub seq: u16,
    pub seq_total: u16,
    pub payload_len: u16,
}

/// Width of the message id on the wire for the given flags.
pub open spec fn id_len_of(flags: u8) -> int {
    if flags & FLAG_SHORT_ID != 0 {
        2
    } else {
        8
    }
}

/// The wire bytes of a v3 header.
pub open spec fn spec_header_v3_bytes(h: HeaderV3) -> Seq<u8> {
    seq![MAGIC_0, MAGIC_1, VERSION_V3, packet_type_v3_byte(h.packet_type), h.flags, 0u8] + (
    if h.flags & FLAG_SHORT_ID != 0 {
        u16_be((h.message_id % 0x10000) as u16)
    } else {
        u64_be(h.message_id)
    }) + u16_be(h.seq) + u16_be(h.seq_total) + u16_be(h.payload_len)
}

/// A header is canonical when its message id fits the width its flags give
/// it; only canonical headers survive a round trip unchanged.
pub open spec fn header_v3_canonical(h: HeaderV3) -> bool {
    h.flags & FLAG_SHORT_ID != 0 ==> h.message_id < 0x10000
}

/// The v3 header parsed from the front of a byte string, mirroring the
/// decode order of the wire format: magic, version, packet type, flags,
/// then the variable-width id and the three counters.
pub open spec fn spec_parse_header_v3(bytes: Seq<u8>) -> Result<HeaderV3, AkariError> {
    if bytes.len() < FIXED_LEN {
        Err(AkariError::InvalidHeaderLength(bytes.len() as usize))
    } else if bytes[0] != MAGIC_0 || bytes[1] != MAGIC_1 {
        Err(AkariError::InvalidMagic([bytes[0], bytes[1]]))
    } else if bytes[2] != VERSION_V3 {
        Err(AkariError::UnsupportedVersion(bytes[2]))
    } else {
        match spec_packet_type_v3(bytes[3]) {
            None => Err(AkariError::UnknownMessageType(bytes[3])),
            Some(t) => {
                let flags = bytes[4];
                let id_len = id_len_of(flags);
                if bytes.len() < FIXED_LEN + id_len {
                    Err(AkariError::InvalidHeaderLength(bytes.len() as usize))
                } else {
                    let message_id = if id_len == 2 {
                        u16_from_be(bytes[6], bytes[7]) as u64
                    } else {
                        u64_from_be(bytes.subrange(6, 14))
                    };
                    Ok(
                        HeaderV3 {
                            packet_type: t,
                            flags,
                            message_id,
                            seq: u16_from_be(bytes[6 + id_len], bytes[7 + id_len]),
                            seq_total: u16_from_be(bytes[8 + id_len], bytes[9 + id_len]),
                            payload_len: u16_from_be(bytes[10 + id_len], bytes[11 + id_len]),
                        },
                    )
                }
            },
        }
    }
}

impl HeaderV3 {
    /// The header's length on the wire: 12 fixed bytes plus the id width.
    pub fn encoded_len(&self) -> (r: usize)
        ensures
            r == FIXED_LEN + id_len_of(self.flags),
    {
        let id_len: usize = if self.flags & FLAG_SHORT_ID != 0 {
            2
        } else {
            8
        };
        FIXED_LEN + id_len
    }

    /// Serialize the header.
    pub fn to_bytes(&self) -> (r: Vec<u8>)
        ensures
            r@ == spec_header_v3_bytes(*self),
            r@.len() == FIXED_LEN + id_len_of(self.flags),
    {
        let mut buf: Vec<u8> = Vec::new();
        buf.push(MAGIC_0);
        buf.push(MAGIC_1);
        buf.push(VERSION_V3);
        buf.push(self.packet_type.to_byte());
        buf.push(self.flags);
        buf.push(0);
        if self.flags & FLAG_SHORT_ID != 0 {
            push_u16_be(&mut buf, (self.message_id % 0x10000) as u16);
        } else {
            push_u64_be(&mut buf, self.message_id);
        }
        push_u16_be(&mut buf, self.seq);
        push_u16_be(&mut buf, self.seq_total);
        push_u16_be(&mut buf, self.payload_len);
        assert(buf@ =~= spec_header_v3_bytes(*self));
        buf
    }

    /// Parse a header from the front of a datagram.
    pub fn from_bytes(bytes: &[u8]) -> (r: Result<HeaderV3, AkariError>)
        ensures
            r == spec_parse_header_v3(bytes@),
    {
        if bytes.len() < FIXED_LEN {
            return Err(AkariError::InvalidHeaderLength(bytes.len()));
        }
        if bytes[0] != MAGIC_0 || bytes[1] != MAGIC_1 {
            return Err(AkariError::InvalidMagic([bytes[0], bytes[1]]));
        }
        if bytes[2] != VERSION_V3 {
            return Err(AkariError::UnsupportedVersion(bytes[2]));
        }
        let packet_type = match PacketTypeV3::from_byte(bytes[3]) {
            Ok(t) => t,
            Err(e) => {
                return Err(e);
            },
        };
        let flags = bytes[4];
        let id_len: usize = if flags & FLAG_SHORT_ID != 0 {
            2
        } else {
            8
        };
        if bytes.len() < FIXED_LEN + id_len {
            return Err(AkariError::InvalidHeaderLength(bytes.len()));
        }
        let message_id: u64 = if id_len == 2 {
            read_u16_be(bytes, 6) as u64
        } else {
            read_u64_be(bytes, 6)
        };
        let seq = read_u16_be(bytes, 6 + id_len);
        let seq_total = read_u16_be(bytes, 8 + id_len);
        let payload_len = read_u16_be(bytes, 10 + id_len);
        Ok(HeaderV3 { packet_type, flags, message_id, seq, seq_total, payload_len })
    }
}

/// Round trip: parsing the serialized header, with anything after it, gives
/// back the header, provided the message id fits the width its flags chose.
pub proof fn lemma_header_v3_round_trip(h: HeaderV3, rest: Seq<u8>)
    requires
        header_v3_canonical(h),
    ensures
        spec_parse_header_v3(spec_header_v3_bytes(h) + rest) == Ok::<HeaderV3, AkariError>(h),
{
    let bytes = spec_header_v3_bytes(h) + rest;
    let id_len = id_len_of(h.flags);
    assert(bytes.len() >= FIXED_LEN + id_len);
    assert(bytes[0] == MAGIC_0 && bytes[1] == MAGIC_1 && bytes[2] == VERSION_V3);
    assert(bytes[3] == packet_type_v3_byte(h.packet_type));
    assert(spec_packet_type_v3(packet_type_v3_byte(h.packet_type)) == Some(h.packet_type));
    assert(bytes[4] == h.flags);
    if h.flags & FLAG_SHORT_ID != 0 {
        assert(h.message_id % 0x10000 == h.message_id);
        crate::bytes_be::lemma_u16_be_round_trip(h.message_id as u16);
        assert(bytes[6] == u16_be(h.message_id as u16)[0]);
        assert(bytes[7] == u16_be(h.message_id as u16)[1]);
        assert(u16_from_be(bytes[6], bytes[7]) as u64 == h.message_id);
    } else {
        crate::bytes_be::lemma_u64_be_round_trip(h.message_id);
        assert(bytes.subrange(6, 14) =~= u64_be(h.message_id));
        assert(u64_from_be(bytes.subrange(6, 14)) == h.message_id);
    }
    crate::bytes_be::lemma_u16_be_round_trip(h.seq);
    crate::bytes_be::lemma_u16_be_round_trip(h.seq_total);
    crate::bytes_be::lemma_u16_be_round_trip(h.payload_len);
    assert(bytes[6 + id_len] == u16_be(h.seq)[0]);
    assert(bytes[7 + id_len] == u16_be(h.seq)[1]);
    assert(bytes[8 + id_len] == u16_be(h.seq_total)[0]);
    assert(bytes[9 + id_len] == u16_be(h.seq_total)[1]);
    assert(bytes[10 + id_len] == u16_be(h.payload_len)[0]);
    assert(bytes[11 + id_len] == u16_be(h.payload_len)[1]);
}

} // verus!
