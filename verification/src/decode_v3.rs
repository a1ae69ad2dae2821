//! v3 packet decoder: parse the header, check the length arithmetic,
//! authenticate per mode, then decode the payload of each packet type.

use vstd::prelude::*;
use vstd::slice::{slice_subrange, slice_to_vec};
use vstd::utf8::{decode_utf8, valid_utf8};

use crate::bytes_be::{read_u16_be, read_u24_be, read_u32_be, u16_from_be, u24_from_be, u32_from_be};
use crate::crypto::{compute_tag, ct_bytes_eq, derived_key, nonce_bytes, open_payload, tag_of, xchacha_open, TAG_LEN};
use crate::error::AkariError;
use crate::header_v3::{
    id_len_of, spec_parse_header_v3, HeaderV3, PacketTypeV3, FIXED_LEN, FLAG_AGG_TAG, FLAG_ENCRYPT, FLAG_SHORT_LEN,
};
use crate::payload::{
    spec_method, ErrorPayload, NackPayloadV3, ParsedPacketV3, PayloadV3, RequestMethod, RequestPayload,
    RespBodyPayloadV3, RespHeadPayloadV3, SpecErrorPayload, SpecParsedPacketV3, SpecPayloadV3, SpecRequestPayload,
    SpecRespBodyPayloadV3, SpecRespHeadPayloadV3,
};
use crate::textutil::bytes_to_utf8;

verus! {

/// The request payload parsed from plaintext bytes: method, the two length
/// fields, then URL and header block filling the payload exactly.
pub open spec fn spec_decode_request_v3(payload: Seq<u8>) -> Result<SpecPayloadV3, AkariError> {
    if payload.len() < 5 {
        Err(AkariError::MissingPayload)
    } else {
        match spec_method(payload[0]) {
            None => Err(AkariError::UnsupportedMethod(payload[0])),
            Some(method) => {
                let url_len = u16_from_be(payload[1], payload[2]) as int;
                let hdr_len = u16_from_be(payload[3], payload[4]) as int;
                if payload.len() != 5 + url_len + hdr_len {
                    Err(
                        AkariError::InvalidUrlLength {
                            declared: url_len as usize,
                            available: if payload.len() >= 5 + hdr_len {
                                (payload.len() - 5 - hdr_len) as usize
                            } else {
                                0
                            },
                        },
                    )
                } else {
                    let url_bytes = payload.subrange(5, 5 + url_len);
                    if !valid_utf8(url_bytes) {
                        Err(AkariError::InvalidUtf8)
                    } else {
                        Ok(
                            SpecPayloadV3::Request(
                                SpecRequestPayload {
                                    method,
                                    url: decode_utf8(url_bytes),
                                    headers: payload.subrange(5 + url_len, payload.len() as int),
                                },
                            ),
                        )
                    }
                }
            },
        }
    }
}

/// The RespHead payload parsed from plaintext bytes: status code, the 3- or
/// 4-byte declared body length, the header-chunk counters, then the first
/// header-block fragment. The body chunk count rides in the header's
/// seq_total.
pub open spec fn spec_decode_resp_head_v3(h: HeaderV3, payload: Seq<u8>) -> Result<SpecPayloadV3, AkariError> {
    let short = h.flags & FLAG_SHORT_LEN != 0;
    let offset = if short {
        5int
    } else {
        6int
    };
    if payload.len() < 4 || payload.len() < offset {
        Err(AkariError::MissingPayload)
    } else {
        let body_len = if short {
            u24_from_be(payload[2], payload[3], payload[4])
        } else {
            u32_from_be(payload[2], payload[3], payload[4], payload[5])
        };
        if payload.len() < offset + 2 {
            Err(AkariError::MissingPayload)
        } else {
            Ok(
                SpecPayloadV3::RespHead(
                    SpecRespHeadPayloadV3 {
                        status_code: u16_from_be(payload[0], payload[1]),
                        body_len,
                        hdr_chunks: payload[offset],
                        hdr_idx: payload[offset + 1],
                        header_block: payload.subrange(offset + 2, payload.len() as int),
                        seq_total_body: h.seq_total,
                    },
                ),
            )
        }
    }
}

/// The RespHeadCont payload parsed from plaintext bytes: the header-chunk
/// counters, then one header-block fragment.
pub open spec fn spec_decode_resp_head_cont_v3(payload: Seq<u8>) -> Result<SpecPayloadV3, AkariError> {
    if payload.len() < 2 {
        Err(AkariError::MissingPayload)
    } else {
        Ok(
            SpecPayloadV3::RespHeadCont {
                hdr_chunks: payload[0],
                hdr_idx: payload[1],
                header_block: payload.subrange(2, payload.len() as int),
            },
        )
    }
}

/// The RespBody payload parsed from plaintext bytes. On the final chunk of
/// an aggregate-tagged body, the trailing 16 bytes are the aggregate tag.
pub open spec fn spec_decode_resp_body_v3(h: HeaderV3, payload: Seq<u8>) -> Result<SpecPayloadV3, AkariError> {
    let agg = h.flags & FLAG_AGG_TAG != 0;
    if agg && h.seq_total > 0 && h.seq == h.seq_total - 1 {
        if payload.len() < TAG_LEN {
            Err(AkariError::MissingPayload)
        } else {
            let split = payload.len() - TAG_LEN;
            Ok(
                SpecPayloadV3::RespBody(
                    SpecRespBodyPayloadV3 {
                        seq: h.seq,
                        seq_total: h.seq_total,
                        chunk: payload.take(split as int),
                        agg_tag: Some(payload.skip(split as int)),
                    },
                ),
            )
        }
    } else {
        Ok(
            SpecPayloadV3::RespBody(
                SpecRespBodyPayloadV3 { seq: h.seq, seq_total: h.seq_total, chunk: payload, agg_tag: None },
            ),
        )
    }
}

/// A NACK payload parsed from plaintext bytes: one length byte that must
/// match, then the bitmap.
pub open spec fn spec_decode_nack_v3(payload: Seq<u8>) -> Result<Seq<u8>, AkariError> {
    if payload.len() == 0 {
        Err(AkariError::MissingPayload)
    } else if payload.len() != 1 + payload[0] {
        Err(
            AkariError::InvalidPacketLength {
                expected: (1 + payload[0]) as usize,
                actual: payload.len() as usize,
            },
        )
    } else {
        Ok(payload.skip(1))
    }
}

/// The Error payload parsed from plaintext bytes: error code, HTTP status,
/// then the UTF-8 message.
pub open spec fn spec_decode_error_v3(payload: Seq<u8>) -> Result<SpecPayloadV3, AkariError> {
    if payload.len() < 3 {
        Err(AkariError::MissingPayload)
    } else {
        let msg_bytes = payload.subrange(3, payload.len() as int);
        if !valid_utf8(msg_bytes) {
            Err(AkariError::InvalidUtf8)
        } else {
            Ok(
                SpecPayloadV3::Error(
                    SpecErrorPayload {
                        error_code: payload[0],
                        http_status: u16_from_be(payload[1], payload[2]),
                        message: decode_utf8(msg_bytes),
                    },
                ),
            )
        }
    }
}

/// The payload of a v3 packet parsed per its packet type.
pub open spec fn spec_decode_payload_v3(h: HeaderV3, payload: Seq<u8>) -> Result<SpecPayloadV3, AkariError> {
    match h.packet_type {
        PacketTypeV3::Req => spec_decode_request_v3(payload),
        PacketTypeV3::RespHead => spec_decode_resp_head_v3(h, payload),
        PacketTypeV3::RespHeadCont => spec_decode_resp_head_cont_v3(payload),
        PacketTypeV3::RespBody => spec_decode_resp_body_v3(h, payload),
        PacketTypeV3::NackHead => match spec_decode_nack_v3(payload) {
            Ok(b) => Ok(SpecPayloadV3::NackHead(b)),
            Err(e) => Err(e),
        },
        PacketTypeV3::NackBody => match spec_decode_nack_v3(payload) {
            Ok(b) => Ok(SpecPayloadV3::NackBody(b)),
            Err(e) => Err(e),
        },
        PacketTypeV3::Error => spec_decode_error_v3(payload),
    }
}

/// The result of decoding a whole v3 datagram under a PSK: parse the header,
/// reject the ENCRYPT+AGG_TAG combination, hold the datagram to the exact
/// length its header declares, authenticate per mode, then parse the
/// payload. Aggregate-mode body packets carry no per-packet trailer and are
/// authenticated later, by the aggregate tag.
pub open spec fn spec_decode_packet_v3(datagram: Seq<u8>, psk: Seq<u8>) -> Result<SpecParsedPacketV3, AkariError> {
    if datagram.len() < FIXED_LEN {
        Err(AkariError::InvalidPacketLength { expected: FIXED_LEN, actual: datagram.len() as usize })
    } else {
        match spec_parse_header_v3(datagram) {
            Err(e) => Err(e),
            Ok(h) => {
                let header_len = FIXED_LEN + id_len_of(h.flags);
                let encrypt = h.flags & FLAG_ENCRYPT != 0;
                let agg_flag = h.flags & FLAG_AGG_TAG != 0;
                if encrypt && agg_flag {
                    Err(AkariError::UnsupportedFlagCombination)
                } else {
                    let agg_mode = agg_flag && h.packet_type == PacketTypeV3::RespBody;
                    let tag_len = if agg_mode {
                        0int
                    } else {
                        TAG_LEN as int
                    };
                    if datagram.len() < header_len + tag_len {
                        Err(
                            AkariError::InvalidPacketLength {
                                expected: (header_len + tag_len) as usize,
                                actual: datagram.len() as usize,
                            },
                        )
                    } else if datagram.len() != header_len + h.payload_len + tag_len {
                        Err(
                            AkariError::InvalidPacketLength {
                                expected: (header_len + h.payload_len + tag_len) as usize,
                                actual: datagram.len() as usize,
                            },
                        )
                    } else {
                        let payload = datagram.subrange(header_len, header_len + h.payload_len);
                        let plain = if encrypt {
                            xchacha_open(
                                derived_key(psk),
                                nonce_bytes(h.message_id, h.seq, h.flags),
                                datagram.take(header_len),
                                datagram.subrange(header_len, datagram.len() as int),
                            )
                        } else if !agg_mode {
                            if datagram.subrange(header_len + h.payload_len, datagram.len() as int) == tag_of(
                                psk,
                                datagram.take(header_len + h.payload_len),
                            ) {
                                Some(payload)
                            } else {
                                None
                            }
                        } else {
                            Some(payload)
                        };
                        match plain {
                            None => if encrypt {
                                Err(AkariError::AeadFailed)
                            } else {
                                Err(AkariError::HmacMismatch)
                            },
                            Some(p) => match spec_decode_payload_v3(h, p) {
                                Err(e) => Err(e),
                                Ok(pl) => Ok(SpecParsedPacketV3 { header: h, payload: pl }),
                            },
                        }
                    }
                }
            },
        }
    }
}

/// Decode the payload of a v3 packet from its plaintext bytes.
pub fn decode_payload_v3(header: &HeaderV3, payload: &[u8]) -> (r: Result<PayloadV3, AkariError>)
    ensures
        r matches Ok(p) ==> spec_decode_payload_v3(*header, payload@) == Ok::<_, AkariError>(p@),
        r matches Err(e) ==> spec_decode_payload_v3(*header, payload@) == Err::<SpecPayloadV3, _>(e),
{
    match header.packet_type {
        PacketTypeV3::Req => decode_request(payload),
        PacketTypeV3::RespHead => decode_resp_head(header, payload),
        PacketTypeV3::RespHeadCont => decode_resp_head_cont(payload),
        PacketTypeV3::RespBody => decode_resp_body(header, payload),
        PacketTypeV3::NackHead => match decode_nack(payload) {
            Ok(n) => Ok(PayloadV3::NackHead(n)),
            Err(e) => Err(e),
        },
        PacketTypeV3::NackBody => match decode_nack(payload) {
            Ok(n) => Ok(PayloadV3::NackBody(n)),
            Err(e) => Err(e),
        },
        PacketTypeV3::Error => decode_error(payload),
    }
}

/// Decode a v3 request payload.
pub fn decode_request(payload: &[u8]) -> (r: Result<PayloadV3, AkariError>)
    ensures
        r matches Ok(p) ==> spec_decode_request_v3(payload@) == Ok::<_, AkariError>(p@),
        r matches Err(e) ==> spec_decode_request_v3(payload@) == Err::<SpecPayloadV3, _>(e),
{
    if payload.len() < 5 {
        return Err(AkariError::MissingPayload);
    }
    let method = match parse_method(payload[0]) {
        Ok(m) => m,
        Err(e) => {
            return Err(e);
        },
    };
    let url_len = read_u16_be(payload, 1) as usize;
    let hdr_len = read_u16_be(payload, 3) as usize;
    if payload.len() < 5 + hdr_len || payload.len() - 5 - hdr_len != url_len {
        let available: usize = if payload.len() >= 5 + hdr_len {
            payload.len() - 5 - hdr_len
        } else {
            0
        };
        return Err(AkariError::InvalidUrlLength { declared: url_len, available });
    }
    let url_bytes = slice_subrange(payload, 5, 5 + url_len);
    let url = match bytes_to_utf8(url_bytes) {
        Some(s) => s,
        None => {
            return Err(AkariError::InvalidUtf8);
        },
    };
    let headers = slice_to_vec(slice_subrange(payload, 5 + url_len, payload.len()));
    Ok(PayloadV3::Request(RequestPayload { method, url, headers }))
}

/// Decode a method byte.
pub fn parse_method(byte: u8) -> (r: Result<RequestMethod, AkariError>)
    ensures
        r matches Ok(m) ==> spec_method(byte) == Some(m),
        r is Err <==> spec_method(byte) is None,
        r matches Err(e) ==> e == AkariError::UnsupportedMethod(byte),
{
    match byte {
        0 => Ok(RequestMethod::Get),
        1 => Ok(RequestMethod::Head),
        2 => Ok(RequestMethod::Post),
        _ => Err(AkariError::UnsupportedMethod(byte)),
    }
}

/// Decode a v3 RespHead payload.
pub fn decode_resp_head(header: &HeaderV3, payload: &[u8]) -> (r: Result<PayloadV3, AkariError>)
    ensures
        r matches Ok(p) ==> spec_decode_resp_head_v3(*header, payload@) == Ok::<_, AkariError>(p@),
        r matches Err(e) ==> spec_decode_resp_head_v3(*header, payload@) == Err::<SpecPayloadV3, _>(e),
{
    let short = header.flags & FLAG_SHORT_LEN != 0;
    let offset: usize = if short {
        5
    } else {
        6
    };
    if payload.len() < 4 || payload.len() < offset {
        return Err(AkariError::MissingPayload);
    }
    let status_code = read_u16_be(payload, 0);
    let body_len: u32 = if short {
        read_u24_be(payload, 2)
    } else {
        read_u32_be(payload, 2)
    };
    if payload.len() < offset + 2 {
        return Err(AkariError::MissingPayload);
    }
    let hdr_chunks = payload[offset];
    let hdr_idx = payload[offset + 1];
    let header_block = slice_to_vec(slice_subrange(payload, offset + 2, payload.len()));
    Ok(
        PayloadV3::RespHead(
            RespHeadPayloadV3 {
                status_code,
                body_len,
                hdr_chunks,
                hdr_idx,
                header_block,
                seq_total_body: header.seq_total,
            },
        ),
    )
}

/// Decode a v3 RespHeadCont payload.
pub fn decode_resp_head_cont(payload: &[u8]) -> (r: Result<PayloadV3, AkariError>)
    ensures
        r matches Ok(p) ==> spec_decode_resp_head_cont_v3(payload@) == Ok::<_, AkariError>(p@),
        r matches Err(e) ==> spec_decode_resp_head_cont_v3(payload@) == Err::<SpecPayloadV3, _>(e),
{
    if payload.len() < 2 {
        return Err(AkariError::MissingPayload);
    }
    let hdr_chunks = payload[0];
    let hdr_idx = payload[1];
    let header_block = slice_to_vec(slice_subrange(payload, 2, payload.len()));
    Ok(PayloadV3::RespHeadCont { hdr_idx, hdr_chunks, header_block })
}

/// Decode a v3 RespBody payload.
pub fn decode_resp_body(header: &HeaderV3, payload: &[u8]) -> (r: Result<PayloadV3, AkariError>)
    ensures
        r matches Ok(p) ==> spec_decode_resp_body_v3(*header, payload@) == Ok::<_, AkariError>(p@),
        r matches Err(e) ==> spec_decode_resp_body_v3(*header, payload@) == Err::<SpecPayloadV3, _>(e),
{
    let agg = header.flags & FLAG_AGG_TAG != 0;
    if agg && header.seq_total > 0 && header.seq == header.seq_total - 1 {
        if payload.len() < TAG_LEN {
            return Err(AkariError::MissingPayload);
        }
        let split = payload.len() - TAG_LEN;
        let chunk = slice_to_vec(slice_subrange(payload, 0, split));
        let agg_tag = slice_to_vec(slice_subrange(payload, split, payload.len()));
        assert(chunk@ =~= payload@.take(split as int));
        assert(agg_tag@ =~= payload@.skip(split as int));
        Ok(
            PayloadV3::RespBody(
                RespBodyPayloadV3 {
                    seq: header.seq,
                    seq_total: header.seq_total,
                    chunk,
                    agg_tag: Some(agg_tag),
                },
            ),
        )
    } else {
        Ok(
            PayloadV3::RespBody(
                RespBodyPayloadV3 {
                    seq: header.seq,
                    seq_total: header.seq_total,
                    chunk: slice_to_vec(payload),
                    agg_tag: None,
                },
            ),
        )
    }
}

/// Decode a v3 NACK payload.
pub fn decode_nack(payload: &[u8]) -> (r: Result<NackPayloadV3, AkariError>)
    ensures
        r matches Ok(n) ==> spec_decode_nack_v3(payload@) == Ok::<_, AkariError>(n.bitmap@),
        r matches Err(e) ==> spec_decode_nack_v3(payload@) == Err::<Seq<u8>, _>(e),
{
    if payload.len() == 0 {
        return Err(AkariError::MissingPayload);
    }
    let bitmap_len = payload[0] as usize;
    if payload.len() != 1 + bitmap_len {
        return Err(AkariError::InvalidPacketLength { expected: 1 + bitmap_len, actual: payload.len() });
    }
    let bitmap = slice_to_vec(slice_subrange(payload, 1, payload.len()));
    Ok(NackPayloadV3 { bitmap })
}

/// Decode a v3 Error payload.
pub fn decode_error(payload: &[u8]) -> (r: Result<PayloadV3, AkariError>)
    ensures
        r matches Ok(p) ==> spec_decode_error_v3(payload@) == Ok::<_, AkariError>(p@),
        r matches Err(e) ==> spec_decode_error_v3(payload@) == Err::<SpecPayloadV3, _>(e),
{
    if payload.len() < 3 {
        return Err(AkariError::MissingPayload);
    }
    let error_code = payload[0];
    let http_status = read_u16_be(payload, 1);
    let msg_bytes = slice_subrange(payload, 3, payload.len());
    let message = match bytes_to_utf8(msg_bytes) {
        Some(s) => s,
        None => {
            return Err(AkariError::InvalidUtf8);
        },
    };
    Ok(PayloadV3::Error(ErrorPayload { error_code, http_status, message }))
}

/// Decode a whole v3 datagram under a PSK.
pub fn decode_packet_v3(datagram: &[u8], psk: &[u8]) -> (r: Result<ParsedPacketV3, AkariError>)
    ensures
        r matches Ok(p) ==> spec_decode_packet_v3(datagram@, psk@) == Ok::<_, AkariError>(p@),
        r matches Err(e) ==> spec_decode_packet_v3(datagram@, psk@) == Err::<SpecParsedPacketV3, _>(e),
{
    if datagram.len() < FIXED_LEN {
        return Err(AkariError::InvalidPacketLength { expected: FIXED_LEN, actual: datagram.len() });
    }
    let header = match HeaderV3::from_bytes(datagram) {
        Ok(h) => h,
        Err(e) => {
            return Err(e);
        },
    };
    let header_len = header.encoded_len();
    let encrypt = header.flags & FLAG_ENCRYPT != 0;
    let agg_flag = header.flags & FLAG_AGG_TAG != 0;
    if encrypt && agg_flag {
        return Err(AkariError::UnsupportedFlagCombination);
    }
    let agg_mode = agg_flag && header.packet_type == PacketTypeV3::RespBody;
    let tag_len: usize = if agg_mode {
        0
    } else {
        TAG_LEN
    };
    if datagram.len() < header_len + tag_len {
        return Err(
            AkariError::InvalidPacketLength { expected: header_len + tag_len, actual: datagram.len() },
        );
    }
    let payload_len = header.payload_len as usize;
    if datagram.len() - header_len - tag_len != payload_len {
        return Err(
            AkariError::InvalidPacketLength {
                expected: header_len + payload_len + tag_len,
                actual: datagram.len(),
            },
        );
    }
    let payload_end = header_len + payload_len;
    let plain: Vec<u8> = if encrypt {
        let aad = slice_subrange(datagram, 0, header_len);
        let combined = slice_subrange(datagram, header_len, datagram.len());
        match open_payload(psk, header.message_id, header.seq, header.flags, aad, combined) {
            Some(p) => p,
            None => {
                return Err(AkariError::AeadFailed);
            },
        }
    } else if !agg_mode {
        let signed = slice_subrange(datagram, 0, payload_end);
        let tag_bytes = slice_subrange(datagram, payload_end, datagram.len());
        let computed = match compute_tag(psk, signed) {
            Ok(t) => t,
            Err(e) => {
                return Err(e);
            },
        };
        if !ct_bytes_eq(computed.as_slice(), tag_bytes) {
            return Err(AkariError::HmacMismatch);
        }
        slice_to_vec(slice_subrange(datagram, header_len, payload_end))
    } else {
        slice_to_vec(slice_subrange(datagram, header_len, payload_end))
    };
    proof {
        assert(datagram@.take(header_len as int) =~= datagram@.subrange(0, header_len as int));
        assert(datagram@.take(payload_end as int) =~= datagram@.subrange(0, payload_end as int));
    }
    let parsed_payload = match decode_payload_v3(&header, plain.as_slice()) {
        Ok(p) => p,
        Err(e) => {
            return Err(e);
        },
    };
    Ok(ParsedPacketV3 { header, payload: parsed_payload })
}

} // verus!
