//! Legacy v1/v2 packet decoder.

use vstd::prelude::*;
use vstd::slice::{slice_subrange, slice_to_vec};
use vstd::utf8::{decode_utf8, valid_utf8};

use crate::bytes_be::{read_u16_be, read_u32_be, u16_from_be, u32_from_be};
use crate::crypto::{compute_tag, ct_bytes_eq, derived_key, nonce_bytes, open_payload, tag_of, xchacha_open, TAG_LEN};
use crate::error::AkariError;
use crate::header::{spec_parse_header, Header, MessageType, HEADER_LEN, VERSION_V1};
use crate::header_v3::FLAG_ENCRYPT;
use crate::payload::{
    spec_method, AckPayload, ErrorPayload, NackPayload, ParsedPacket, Payload, RequestMethod, RequestPayload,
    ResponseChunk, SpecErrorPayload, SpecParsedPacket, SpecPayload, SpecRequestPayload, SpecResponseChunk,
};
use crate::textutil::bytes_to_utf8;

verus! {

/// The v1/v2 request payload parsed from plaintext bytes. v1 carries GET
/// only and a reserved byte; v2 carries a method and a header block.
pub open spec fn spec_decode_request(version: u8, payload: Seq<u8>) -> Result<SpecPayload, AkariError> {
    if version == VERSION_V1 {
        if payload.len() < 4 {
            Err(AkariError::MissingPayload)
        } else {
            match spec_method(payload[0]) {
                None => Err(AkariError::UnsupportedMethod(payload[0])),
                Some(method) => if method != RequestMethod::Get {
                    Err(AkariError::UnsupportedMethod(payload[0]))
                } else {
                    let url_len = u16_from_be(payload[1], payload[2]) as int;
                    if payload.len() != 4 + url_len {
                        Err(
                            AkariError::InvalidUrlLength {
                                declared: url_len as usize,
                                available: (payload.len() - 4) as usize,
                            },
                        )
                    } else {
                        let url_bytes = payload.subrange(4, payload.len() as int);
                        if !valid_utf8(url_bytes) {
                            Err(AkariError::InvalidUtf8)
                        } else {
                            Ok(
                                SpecPayload::Request(
                                    SpecRequestPayload {
                                        method: RequestMethod::Get,
                                        url: decode_utf8(url_bytes),
                                        headers: Seq::empty(),
                                    },
                                ),
                            )
                        }
                    }
                },
            }
        }
    } else {
        if payload.len() < 5 {
            Err(AkariError::MissingPayload)
        } else {
            match spec_method(payload[0]) {
                None => Err(AkariError::UnsupportedMethod(payload[0])),
                Some(method) => {
                    let url_len = u16_from_be(payload[1], payload[2]) as int;
                    let hdr_len = u16_from_be(payload[3], payload[4]) as int;
                    if payload.len() != 5 + url_len + hdr_len {
                        Err(
                            AkariError::InvalidUrlLength {
                                declared: url_len as usize,
                                available: if payload.len() >= 5 + hdr_len {
                                    (payload.len() - 5 - hdr_len) as usize
                                } else {
                                    0
                                },
                            },
                        )
                    } else {
                        let url_bytes = payload.subrange(5, 5 + url_len);
                        if !valid_utf8(url_bytes) {
                            Err(AkariError::InvalidUtf8)
                        } else {
                            Ok(
                                SpecPayload::Request(
                                    SpecRequestPayload {
                                        method,
                                        url: decode_utf8(url_bytes),
                                        headers: payload.subrange(5 + url_len, payload.len() as int),
                                    },
                                ),
                            )
                        }
                    }
                },
            }
        }
    }
}

/// The v1/v2 response payload parsed from plaintext bytes. The first chunk
/// (seq 0) carries status, an optional v2 header block and the declared body
/// length; later chunks are raw body bytes.
pub open spec fn spec_decode_response(h: Header, payload: Seq<u8>) -> Result<SpecPayload, AkariError> {
    if h.seq == 0 {
        if payload.len() < 8 {
            Err(AkariError::MissingPayload)
        } else {
            let hdr_len = if h.version == VERSION_V1 {
                0int
            } else {
                u16_from_be(payload[2], payload[3]) as int
            };
            if payload.len() < 8 + hdr_len {
                Err(AkariError::MissingPayload)
            } else {
                Ok(
                    SpecPayload::Response(
                        SpecResponseChunk {
                            seq: 0,
                            seq_total: h.seq_total,
                            is_first: true,
                            status_code: Some(u16_from_be(payload[0], payload[1])),
                            body_len: Some(u32_from_be(payload[4], payload[5], payload[6], payload[7])),
                            headers: if h.version == VERSION_V1 || hdr_len == 0 {
                                None
                            } else {
                                Some(payload.subrange(8, 8 + hdr_len))
                            },
                            chunk: payload.subrange(8 + hdr_len, payload.len() as int),
                        },
                    ),
                )
            }
        }
    } else {
        Ok(
            SpecPayload::Response(
                SpecResponseChunk {
                    seq: h.seq,
                    seq_total: h.seq_total,
                    is_first: false,
                    status_code: None,
                    body_len: None,
                    headers: None,
                    chunk: payload,
                },
            ),
        )
    }
}

/// The v1/v2 Error payload parsed from plaintext bytes: code, a pad byte,
/// the HTTP status, the message length that must match, two pad bytes, then
/// the UTF-8 message.
pub open spec fn spec_decode_error(payload: Seq<u8>) -> Result<SpecPayload, AkariError> {
    if payload.len() < 8 {
        Err(AkariError::MissingPayload)
    } else {
        let msg_len = u16_from_be(payload[4], payload[5]) as int;
        if payload.len() != 8 + msg_len {
            Err(
                AkariError::InvalidPacketLength {
                    expected: (8 + msg_len) as usize,
                    actual: payload.len() as usize,
                },
            )
        } else {
            let msg_bytes = payload.subrange(8, payload.len() as int);
            if !valid_utf8(msg_bytes) {
                Err(AkariError::InvalidUtf8)
            } else {
                Ok(
                    SpecPayload::Error(
                        SpecErrorPayload {
                            error_code: payload[0],
                            http_status: u16_from_be(payload[2], payload[3]),
                            message: decode_utf8(msg_bytes),
                        },
                    ),
                )
            }
        }
    }
}

/// The v2 Ack payload parsed from plaintext bytes: exactly one sequence
/// number.
pub open spec fn spec_decode_ack(payload: Seq<u8>) -> Result<SpecPayload, AkariError> {
    if payload.len() != 2 {
        Err(AkariError::InvalidPacketLength { expected: 2, actual: payload.len() as usize })
    } else {
        Ok(SpecPayload::Ack(AckPayload { first_lost_seq: u16_from_be(payload[0], payload[1]) }))
    }
}

/// The v2 Nack payload parsed from plaintext bytes: one length byte that
/// must match, then the bitmap.
pub open spec fn spec_decode_nack(payload: Seq<u8>) -> Result<SpecPayload, AkariError> {
    if payload.len() == 0 {
        Err(AkariError::MissingPayload)
    } else if payload.len() != 1 + payload[0] {
        Err(
            AkariError::InvalidPacketLength {
                expected: (1 + payload[0]) as usize,
                actual: payload.len() as usize,
            },
        )
    } else {
        Ok(SpecPayload::Nack(payload.skip(1)))
    }
}

/// The payload of a v1/v2 packet parsed per its message type.
pub open spec fn spec_decode_payload(h: Header, payload: Seq<u8>) -> Result<SpecPayload, AkariError> {
    match h.message_type {
        MessageType::Req => spec_decode_request(h.version, payload),
        MessageType::Resp => spec_decode_response(h, payload),
        MessageType::Ack => spec_decode_ack(payload),
        MessageType::Nack => spec_decode_nack(payload),
        MessageType::Error => spec_decode_error(payload),
    }
}

/// The result of decoding a whole v1/v2 datagram under a PSK: parse the
/// 24-byte header, hold the datagram to the exact length it declares,
/// authenticate (by AEAD when FLAG_ENCRYPT is set, by the HMAC tag
/// otherwise), then parse the payload.
pub open spec fn spec_decode_packet(datagram: Seq<u8>, psk: Seq<u8>) -> Result<SpecParsedPacket, AkariError> {
    if datagram.len() < HEADER_LEN + TAG_LEN {
        Err(
            AkariError::InvalidPacketLength {
                expected: (HEADER_LEN + TAG_LEN) as usize,
                actual: datagram.len() as usize,
            },
        )
    } else {
        match spec_parse_header(datagram) {
            Err(e) => Err(e),
            Ok(h) => {
                if datagram.len() != HEADER_LEN + h.payload_len + TAG_LEN {
                    Err(
                        AkariError::InvalidPacketLength {
                            expected: (HEADER_LEN + h.payload_len + TAG_LEN) as usize,
                            actual: datagram.len() as usize,
                        },
                    )
                } else {
                    let payload_end = HEADER_LEN + h.payload_len;
                    let payload = datagram.subrange(HEADER_LEN as int, payload_end as int);
                    let encrypt = h.flags & FLAG_ENCRYPT != 0;
                    let plain = if encrypt {
                        xchacha_open(
                            derived_key(psk),
                            nonce_bytes(h.message_id, h.seq, h.flags),
                            datagram.take(HEADER_LEN as int),
                            datagram.subrange(HEADER_LEN as int, datagram.len() as int),
                        )
                    } else {
                        if datagram.subrange(payload_end as int, datagram.len() as int) == tag_of(
                            psk,
                            datagram.take(payload_end as int),
                        ) {
                            Some(payload)
                        } else {
                            None
                        }
                    };
                    match plain {
                        None => if encrypt {
                            Err(AkariError::AeadFailed)
                        } else {
                            Err(AkariError::HmacMismatch)
                        },
                        Some(p) => match spec_decode_payload(h, p) {
                            Err(e) => Err(e),
                            Ok(pl) => Ok(SpecParsedPacket { header: h, payload: pl }),
                        },
                    }
                }
            },
        }
    }
}

/// Decode the payload of a v1/v2 packet from its plaintext bytes.
pub fn decode_payload(header: &Header, payload: &[u8]) -> (r: Result<Payload, AkariError>)
    ensures
        r matches Ok(p) ==> spec_decode_payload(*header, payload@) == Ok::<_, AkariError>(p@),
        r matches Err(e) ==> spec_decode_payload(*header, payload@) == Err::<SpecPayload, _>(e),
{
    match header.message_type {
        MessageType::Req => decode_request(header, payload),
        MessageType::Resp => decode_response(header, payload),
        MessageType::Ack => decode_ack(payload),
        MessageType::Nack => decode_nack(payload),
        MessageType::Error => decode_error(payload),
    }
}

/// Decode a method byte.
pub fn parse_method(byte: u8) -> (r: Result<RequestMethod, AkariError>)
    ensures
        r matches Ok(m) ==> spec_method(byte) == Some(m),
        r is Err <==> spec_method(byte) is None,
        r matches Err(e) ==> e == AkariError::UnsupportedMethod(byte),
{
    match byte {
        0 => Ok(RequestMethod::Get),
        1 => Ok(RequestMethod::Head),
        2 => Ok(RequestMethod::Post),
        _ => Err(AkariError::UnsupportedMethod(byte)),
    }
}

/// Decode a v1/v2 request payload.
pub fn decode_request(header: &Header, payload: &[u8]) -> (r: Result<Payload, AkariError>)
    ensures
        r matches Ok(p) ==> spec_decode_request(header.version, payload@) == Ok::<_, AkariError>(p@),
        r matches Err(e) ==> spec_decode_request(header.version, payload@) == Err::<SpecPayload, _>(e),
{
    if header.version == VERSION_V1 {
        if payload.len() < 4 {
            return Err(AkariError::MissingPayload);
        }
        let method = match parse_method(payload[0]) {
            Ok(m) => m,
            Err(e) => {
                return Err(e);
            },
        };
        if method != RequestMethod::Get {
            return Err(AkariError::UnsupportedMethod(payload[0]));
        }
        let url_len = read_u16_be(payload, 1) as usize;
        if payload.len() - 4 != url_len {
            return Err(AkariError::InvalidUrlLength { declared: url_len, available: payload.len() - 4 });
        }
        let url_bytes = slice_subrange(payload, 4, payload.len());
        let url = match bytes_to_utf8(url_bytes) {
            Some(s) => s,
            None => {
                return Err(AkariError::InvalidUtf8);
            },
        };
        Ok(Payload::Request(RequestPayload { method: RequestMethod::Get, url, headers: Vec::new() }))
    } else {
        if payload.len() < 5 {
            return Err(AkariError::MissingPayload);
        }
        let method = match parse_method(payload[0]) {
            Ok(m) => m,
            Err(e) => {
                return Err(e);
            },
        };
        let url_len = read_u16_be(payload, 1) as usize;
        let hdr_len = read_u16_be(payload, 3) as usize;
        if payload.len() < 5 + hdr_len || payload.len() - 5 - hdr_len != url_len {
            let available: usize = if payload.len() >= 5 + hdr_len {
                payload.len() - 5 - hdr_len
            } else {
                0
            };
            return Err(AkariError::InvalidUrlLength { declared: url_len, available });
        }
        let url_bytes = slice_subrange(payload, 5, 5 + url_len);
        let url = match bytes_to_utf8(url_bytes) {
            Some(s) => s,
            None => {
                return Err(AkariError::InvalidUtf8);
            },
        };
        let headers = slice_to_vec(slice_subrange(payload, 5 + url_len, payload.len()));
        Ok(Payload::Request(RequestPayload { method, url, headers }))
    }
}

/// Decode a v1/v2 response payload.
pub fn decode_response(header: &Header, payload: &[u8]) -> (r: Result<Payload, AkariError>)
    ensures
        r matches Ok(p) ==> spec_decode_response(*header, payload@) == Ok::<_, AkariError>(p@),
        r matches Err(e) ==> spec_decode_response(*header, payload@) == Err::<SpecPayload, _>(e),
{
    if header.seq == 0 {
        if payload.len() < 8 {
            return Err(AkariError::MissingPayload);
        }
        let status_code = read_u16_be(payload, 0);
        let hdr_len: usize = if header.version == VERSION_V1 {
            0
        } else {
            read_u16_be(payload, 2) as usize
        };
        let body_len = read_u32_be(payload, 4);
        if payload.len() < 8 + hdr_len {
            return Err(AkariError::MissingPayload);
        }
        let headers: Option<Vec<u8>> = if header.version == VERSION_V1 || hdr_len == 0 {
            None
        } else {
            Some(slice_to_vec(slice_subrange(payload, 8, 8 + hdr_len)))
        };
        let chunk = slice_to_vec(slice_subrange(payload, 8 + hdr_len, payload.len()));
        Ok(
            Payload::Response(
                ResponseChunk {
                    seq: 0,
                    seq_total: header.seq_total,
                    is_first: true,
                    status_code: Some(status_code),
                    body_len: Some(body_len),
                    headers,
                    chunk,
                },
            ),
        )
    } else {
        Ok(
            Payload::Response(
                ResponseChunk {
                    seq: header.seq,
                    seq_total: header.seq_total,
                    is_first: false,
                    status_code: None,
                    body_len: None,
                    headers: None,
                    chunk: slice_to_vec(payload),
                },
            ),
        )
    }
}

/// Decode a v1/v2 Error payload.
pub fn decode_error(payload: &[u8]) -> (r: Result<Payload, AkariError>)
    ensures
        r matches Ok(p) ==> spec_decode_error(payload@) == Ok::<_, AkariError>(p@),
        r matches Err(e) ==> spec_decode_error(payload@) == Err::<SpecPayload, _>(e),
{
    if payload.len() < 8 {
        return Err(AkariError::MissingPayload);
    }
    let error_code = payload[0];
    let http_status = read_u16_be(payload, 2);
    let msg_len = read_u16_be(payload, 4) as usize;
    if payload.len() - 8 != msg_len {
        return Err(AkariError::InvalidPacketLength { expected: 8 + msg_len, actual: payload.len() });
    }
    let msg_bytes = slice_subrange(payload, 8, payload.len());
    let message = match bytes_to_utf8(msg_bytes) {
        Some(s) => s,
        None => {
            return Err(AkariError::InvalidUtf8);
        },
    };
    Ok(Payload::Error(ErrorPayload { error_code, http_status, message }))
}

/// Decode a v2 Ack payload.
pub fn decode_ack(payload: &[u8]) -> (r: Result<Payload, AkariError>)
    ensures
        r matches Ok(p) ==> spec_decode_ack(payload@) == Ok::<_, AkariError>(p@),
        r matches Err(e) ==> spec_decode_ack(payload@) == Err::<SpecPayload, _>(e),
{
    if payload.len() != 2 {
        return Err(AkariError::InvalidPacketLength { expected: 2, actual: payload.len() });
    }
    let first_lost_seq = read_u16_be(payload, 0);
    Ok(Payload::Ack(AckPayload { first_lost_seq }))
}

/// Decode a v1/v2 Nack payload.
pub fn decode_nack(payload: &[u8]) -> (r: Result<Payload, AkariError>)
    ensures
        r matches Ok(p) ==> spec_decode_nack(payload@) == Ok::<_, AkariError>(p@),
        r matches Err(e) ==> spec_decode_nack(payload@) == Err::<SpecPayload, _>(e),
{
    if payload.len() == 0 {
        return Err(AkariError::MissingPayload);
    }
    let bitmap_len = payload[0] as usize;
    if payload.len() != 1 + bitmap_len {
        return Err(AkariError::InvalidPacketLength { expected: 1 + bitmap_len, actual: payload.len() });
    }
    let bitmap = slice_to_vec(slice_subrange(payload, 1, payload.len()));
    Ok(Payload::Nack(NackPayload { bitmap }))
}

/// Decode a whole v1/v2 datagram under a PSK.
pub fn decode_packet(datagram: &[u8], psk: &[u8]) -> (r: Result<ParsedPacket, AkariError>)
    ensures
        r matches Ok(p) ==> spec_decode_packet(datagram@, psk@) == Ok::<_, AkariError>(p@),
        r matches Err(e) ==> spec_decode_packet(datagram@, psk@) == Err::<SpecParsedPacket, _>(e),
{
    if datagram.len() < HEADER_LEN + TAG_LEN {
        return Err(AkariError::InvalidPacketLength { expected: HEADER_LEN + TAG_LEN, actual: datagram.len() });
    }
    let header = match Header::from_bytes(datagram) {
        Ok(h) => h,
        Err(e) => {
            return Err(e);
        },
    };
    let payload_len = header.payload_len as usize;
    if datagram.len() - HEADER_LEN - TAG_LEN != payload_len {
        return Err(
            AkariError::InvalidPacketLength {
                expected: HEADER_LEN + payload_len + TAG_LEN,
                actual: datagram.len(),
            },
        );
    }
    let payload_end = HEADER_LEN + payload_len;
    let plain: Vec<u8> = if header.flags & FLAG_ENCRYPT != 0 {
        let aad = slice_subrange(datagram, 0, HEADER_LEN);
        let combined = slice_subrange(datagram, HEADER_LEN, datagram.len());
        match open_payload(psk, header.message_id, header.seq, header.flags, aad, combined) {
            Some(p) => p,
            None => {
                return Err(AkariError::AeadFailed);
            },
        }
    } else {
        let signed = slice_subrange(datagram, 0, payload_end);
        let tag_bytes = slice_subrange(datagram, payload_end, datagram.len());
        let computed = match compute_tag(psk, signed) {
            Ok(t) => t,
            Err(e) => {
                return Err(e);
            },
        };
        if !ct_bytes_eq(computed.as_slice(), tag_bytes) {
            return Err(AkariError::HmacMismatch);
        }
        slice_to_vec(slice_subrange(datagram, HEADER_LEN, payload_end))
    };
    proof {
        assert(datagram@.take(HEADER_LEN as int) =~= datagram@.subrange(0, HEADER_LEN as int));
        assert(datagram@.take(payload_end as int) =~= datagram@.subrange(0, payload_end as int));
    }
    let parsed_payload = match decode_payload(&header, plain.as_slice()) {
        Ok(p) => p,
        Err(e) => {
            return Err(e);
        },
    };
    Ok(ParsedPacket { header, payload: parsed_payload })
}

} // verus!
