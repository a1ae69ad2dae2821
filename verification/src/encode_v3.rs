//! v3 packet encoders: serialize a header, append the payload, and close the
//! packet with the authenticator its mode calls for.

use vstd::prelude::*;
use vstd::utf8::encode_utf8;

use crate::bytes_be::{push_bytes, push_u16_be, push_u24_be, push_u32_be, u16_be, u24_be, u32_be};
use crate::crypto::{compute_tag, derived_key, nonce_bytes, seal_payload, tag_of, xchacha_seal, TAG_LEN};
use crate::error::AkariError;
use crate::header_v3::{spec_header_v3_bytes, HeaderV3, PacketTypeV3, FLAG_ENCRYPT, FLAG_SHORT_LEN};
use crate::payload::{method_byte, RequestMethod};

verus! {

/// The bytes of a finished v3 packet: header, then payload, then the
/// authenticator its mode calls for. Encrypted packets carry the AEAD
/// ciphertext and tag in place of the plaintext; `include_tag` is false only
/// for aggregate-tagged body packets, which have no per-packet trailer.
pub open spec fn spec_assemble_v3(h: HeaderV3, payload: Seq<u8>, psk: Seq<u8>, include_tag: bool) -> Seq<u8> {
    let hb = spec_header_v3_bytes(h);
    if h.flags & FLAG_ENCRYPT != 0 {
        hb + xchacha_seal(derived_key(psk), nonce_bytes(h.message_id, h.seq, h.flags), hb, payload)
    } else if include_tag {
        hb + payload + tag_of(psk, hb + payload)
    } else {
        hb + payload
    }
}

/// Finishing a packet: rejected when the payload disagrees with the length
/// the header declares, assembled otherwise.
pub open spec fn spec_finalize_v3(h: HeaderV3, payload: Seq<u8>, psk: Seq<u8>, include_tag: bool) -> Result<
    Seq<u8>,
    AkariError,
> {
    if payload.len() != h.payload_len {
        Err(AkariError::InvalidPacketLength { expected: h.payload_len as usize, actual: payload.len() as usize })
    } else {
        Ok(spec_assemble_v3(h, payload, psk, include_tag))
    }
}

/// Close a v3 packet over its payload.
fn finalize_packet(header: &HeaderV3, payload: &[u8], psk: &[u8], include_tag: bool) -> (r: Result<
    Vec<u8>,
    AkariError,
>)
    ensures
        r matches Ok(v) ==> spec_finalize_v3(*header, payload@, psk@, include_tag) == Ok::<_, AkariError>(v@),
        r matches Err(e) ==> spec_finalize_v3(*header, payload@, psk@, include_tag) == Err::<Seq<u8>, _>(e),
{
    if payload.len() != header.payload_len as usize {
        return Err(
            AkariError::InvalidPacketLength { expected: header.payload_len as usize, actual: payload.len() },
        );
    }
    let header_bytes = header.to_bytes();
    let mut buf: Vec<u8> = Vec::new();
    push_bytes(&mut buf, header_bytes.as_slice());
    if header.flags & FLAG_ENCRYPT != 0 {
        let sealed = seal_payload(
            psk,
            header.message_id,
            header.seq,
            header.flags,
            header_bytes.as_slice(),
            payload,
        );
        push_bytes(&mut buf, sealed.as_slice());
        assert(buf@ =~= spec_assemble_v3(*header, payload@, psk@, include_tag));
        Ok(buf)
    } else if include_tag {
        push_bytes(&mut buf, payload);
        let tag = match compute_tag(psk, buf.as_slice()) {
            Ok(t) => t,
            Err(e) => {
                return Err(e);
            },
        };
        push_bytes(&mut buf, tag.as_slice());
        assert(buf@ =~= spec_assemble_v3(*header, payload@, psk@, include_tag));
        Ok(buf)
    } else {
        push_bytes(&mut buf, payload);
        assert(buf@ =~= spec_assemble_v3(*header, payload@, psk@, include_tag));
        Ok(buf)
    }
}

/// The encoding of a v3 request packet: method byte, URL and header-block
/// lengths, then the two byte strings, framed and tagged. The request uses
/// seq 0 of 1.
pub open spec fn spec_encode_request_v3(
    method: RequestMethod,
    url: Seq<char>,
    header_block: Seq<u8>,
    message_id: u64,
    flags: u8,
    psk: Seq<u8>,
) -> Result<Seq<u8>, AkariError> {
    let urlb = encode_utf8(url);
    let payload = seq![method_byte(method)] + u16_be((urlb.len() % 0x10000) as u16) + u16_be(
        (header_block.len() % 0x10000) as u16,
    ) + urlb + header_block;
    let h = HeaderV3 {
        packet_type: PacketTypeV3::Req,
        flags,
        message_id,
        seq: 0,
        seq_total: 1,
        payload_len: (payload.len() % 0x10000) as u16,
    };
    spec_finalize_v3(h, payload, psk, true)
}

/// Encode a v3 request packet.
pub fn encode_request_v3(
    method: RequestMethod,
    url: &str,
    header_block: &[u8],
    message_id: u64,
    _timestamp: u32,
    flags: u8,
    psk: &[u8],
) -> (r: Result<Vec<u8>, AkariError>)
    ensures
        r matches Ok(v) ==> spec_encode_request_v3(method, url@, header_block@, message_id, flags, psk@)
            == Ok::<_, AkariError>(v@),
        r matches Err(e) ==> spec_encode_request_v3(method, url@, header_block@, message_id, flags, psk@)
            == Err::<Seq<u8>, _>(e),
{
    let url_bytes = url.as_bytes();
    let mut payload: Vec<u8> = Vec::new();
    payload.push(method.to_byte());
    push_u16_be(&mut payload, (url_bytes.len() % 0x10000) as u16);
    push_u16_be(&mut payload, (header_block.len() % 0x10000) as u16);
    push_bytes(&mut payload, url_bytes);
    push_bytes(&mut payload, header_block);
    let header = HeaderV3 {
        packet_type: PacketTypeV3::Req,
        flags,
        message_id,
        seq: 0,
        seq_total: 1,
        payload_len: (payload.len() % 0x10000) as u16,
    };
    proof {
        let urlb = encode_utf8(url@);
        assert(payload@ =~= seq![method_byte(method)] + u16_be((urlb.len() % 0x10000) as u16) + u16_be(
            (header_block@.len() % 0x10000) as u16,
        ) + urlb + header_block@);
    }
    finalize_packet(&header, payload.as_slice(), psk, true)
}

/// The encoding of a v3 RespHead packet: status code, the declared body
/// length in its 3- or 4-byte form, the header-chunk counters, then the
/// first header-block fragment.
pub open spec fn spec_encode_resp_head_v3(
    status_code: u16,
    hdr_chunk: Seq<u8>,
    body_len: u32,
    hdr_chunks: u8,
    hdr_idx: u8,
    seq_total_body: u16,
    flags: u8,
    message_id: u64,
    psk: Seq<u8>,
) -> Result<Seq<u8>, AkariError> {
    let len_field = if flags & FLAG_SHORT_LEN != 0 {
        u24_be(body_len)
    } else {
        u32_be(body_len)
    };
    let payload = u16_be(status_code) + len_field + seq![hdr_chunks, hdr_idx] + hdr_chunk;
    let h = HeaderV3 {
        packet_type: PacketTypeV3::RespHead,
        flags,
        message_id,
        seq: 0,
        seq_total: seq_total_body,
        payload_len: (payload.len() % 0x10000) as u16,
    };
    spec_finalize_v3(h, payload, psk, true)
}

/// Encode a v3 RespHead packet.
pub fn encode_resp_head_v3(
    status_code: u16,
    _hdr_len: usize,
    hdr_chunk: &[u8],
    body_len: u32,
    hdr_chunks: u8,
    hdr_idx: u8,
    seq_total_body: u16,
    flags: u8,
    message_id: u64,
    psk: &[u8],
) -> (r: Result<Vec<u8>, AkariError>)
    ensures
        r matches Ok(v) ==> spec_encode_resp_head_v3(
            status_code,
            hdr_chunk@,
            body_len,
            hdr_chunks,
            hdr_idx,
            seq_total_body,
            flags,
            message_id,
            psk@,
        ) == Ok::<_, AkariError>(v@),
        r matches Err(e) ==> spec_encode_resp_head_v3(
            status_code,
            hdr_chunk@,
            body_len,
            hdr_chunks,
            hdr_idx,
            seq_total_body,
            flags,
            message_id,
            psk@,
        ) == Err::<Seq<u8>, _>(e),
{
    let mut payload: Vec<u8> = Vec::new();
    push_u16_be(&mut payload, status_code);
    if flags & FLAG_SHORT_LEN != 0 {
        push_u24_be(&mut payload, body_len);
    } else {
        push_u32_be(&mut payload, body_len);
    }
    payload.push(hdr_chunks);
    payload.push(hdr_idx);
    push_bytes(&mut payload, hdr_chunk);
    let header = HeaderV3 {
        packet_type: PacketTypeV3::RespHead,
        flags,
        message_id,
        seq: 0,
        seq_total: seq_total_body,
        payload_len: (payload.len() % 0x10000) as u16,
    };
    proof {
        let len_field = if flags & FLAG_SHORT_LEN != 0 {
            u24_be(body_len)
        } else {
            u32_be(body_len)
        };
        assert(payload@ =~= u16_be(status_code) + len_field + seq![hdr_chunks, hdr_idx] + hdr_chunk@);
    }
    finalize_packet(&header, payload.as_slice(), psk, true)
}

/// The encoding of a v3 RespHeadCont packet: the header-chunk counters and
/// one later header-block fragment. Its seq fields are unused and zero.
pub open spec fn spec_encode_resp_head_cont_v3(
    hdr_chunk: Seq<u8>,
    hdr_idx: u8,
    hdr_chunks: u8,
    flags: u8,
    message_id: u64,
    psk: Seq<u8>,
) -> Result<Seq<u8>, AkariError> {
    let payload = seq![hdr_chunks, hdr_idx] + hdr_chunk;
    let h = HeaderV3 {
        packet_type: PacketTypeV3::RespHeadCont,
        flags,
        message_id,
        seq: 0,
        seq_total: 0,
        payload_len: (payload.len() % 0x10000) as u16,
    };
    spec_finalize_v3(h, payload, psk, true)
}

/// Encode a v3 RespHeadCont packet. Header continuations carry a per-packet
/// tag even in aggregate mode, so their loss is detectable.
pub fn encode_resp_head_cont_v3(
    hdr_chunk: &[u8],
    hdr_idx: u8,
    hdr_chunks: u8,
    flags: u8,
    message_id: u64,
    psk: &[u8],
) -> (r: Result<Vec<u8>, AkariError>)
    ensures
        r matches Ok(v) ==> spec_encode_resp_head_cont_v3(hdr_chunk@, hdr_idx, hdr_chunks, flags, message_id, psk@)
            == Ok::<_, AkariError>(v@),
        r matches Err(e) ==> spec_encode_resp_head_cont_v3(hdr_chunk@, hdr_idx, hdr_chunks, flags, message_id, psk@)
            == Err::<Seq<u8>, _>(e),
{
    let mut payload: Vec<u8> = Vec::new();
    payload.push(hdr_chunks);
    payload.push(hdr_idx);
    push_bytes(&mut payload, hdr_chunk);
    let header = HeaderV3 {
        packet_type: PacketTypeV3::RespHeadCont,
        flags,
        message_id,
        seq: 0,
        seq_total: 0,
        payload_len: (payload.len() % 0x10000) as u16,
    };
    assert(payload@ =~= seq![hdr_chunks, hdr_idx] + hdr_chunk@);
    finalize_packet(&header, payload.as_slice(), psk, true)
}

/// The encoding of a v3 RespBody packet with a per-packet tag.
pub open spec fn spec_encode_resp_body_v3(
    body_chunk: Seq<u8>,
    seq: u16,
    seq_total: u16,
    flags: u8,
    message_id: u64,
    psk: Seq<u8>,
) -> Result<Seq<u8>, AkariError> {
    let h = HeaderV3 {
        packet_type: PacketTypeV3::RespBody,
        flags,
        message_id,
        seq,
        seq_total,
        payload_len: (body_chunk.len() % 0x10000) as u16,
    };
    spec_finalize_v3(h, body_chunk, psk, true)
}

/// Encode a v3 RespBody packet with a per-packet tag.
pub fn encode_resp_body_v3(
    body_chunk: &[u8],
    seq: u16,
    seq_total: u16,
    flags: u8,
    message_id: u64,
    psk: &[u8],
) -> (r: Result<Vec<u8>, AkariError>)
    ensures
        r matches Ok(v) ==> spec_encode_resp_body_v3(body_chunk@, seq, seq_total, flags, message_id, psk@)
            == Ok::<_, AkariError>(v@),
        r matches Err(e) ==> spec_encode_resp_body_v3(body_chunk@, seq, seq_total, flags, message_id, psk@)
            == Err::<Seq<u8>, _>(e),
{
    let header = HeaderV3 {
        packet_type: PacketTypeV3::RespBody,
        flags,
        message_id,
        seq,
        seq_total,
        payload_len: (body_chunk.len() % 0x10000) as u16,
    };
    finalize_packet(&header, body_chunk, psk, true)
}

/// The encoding of an aggregate-mode v3 RespBody packet: the chunk, with the
/// aggregate tag appended on the final packet, and no per-packet trailer
/// unless the packet is encrypted.
pub open spec fn spec_encode_resp_body_v3_agg(
    body_chunk: Seq<u8>,
    seq: u16,
    seq_total: u16,
    flags: u8,
    message_id: u64,
    psk: Seq<u8>,
    agg_tag: Option<Seq<u8>>,
) -> Result<Seq<u8>, AkariError> {
    let payload = match agg_tag {
        Some(t) => body_chunk + t,
        None => body_chunk,
    };
    let h = HeaderV3 {
        packet_type: PacketTypeV3::RespBody,
        flags,
        message_id,
        seq,
        seq_total,
        payload_len: (payload.len() % 0x10000) as u16,
    };
    spec_finalize_v3(h, payload, psk, flags & FLAG_ENCRYPT != 0)
}

/// Encode an aggregate-mode v3 RespBody packet.
pub fn encode_resp_body_v3_agg(
    body_chunk: &[u8],
    seq: u16,
    seq_total: u16,
    flags: u8,
    message_id: u64,
    psk: &[u8],
    agg_tag: Option<&[u8]>,
) -> (r: Result<Vec<u8>, AkariError>)
    ensures
        r matches Ok(v) ==> spec_encode_resp_body_v3_agg(
            body_chunk@,
            seq,
            seq_total,
            flags,
            message_id,
            psk@,
            match agg_tag {
                Some(t) => Some(t@),
                None => None,
            },
        ) == Ok::<_, AkariError>(v@),
        r matches Err(e) ==> spec_encode_resp_body_v3_agg(
            body_chunk@,
            seq,
            seq_total,
            flags,
            message_id,
            psk@,
            match agg_tag {
                Some(t) => Some(t@),
                None => None,
            },
        ) == Err::<Seq<u8>, _>(e),
{
    let mut payload: Vec<u8> = Vec::new();
    push_bytes(&mut payload, body_chunk);
    match agg_tag {
        Some(t) => {
            push_bytes(&mut payload, t);
        },
        None => {},
    }
    let header = HeaderV3 {
        packet_type: PacketTypeV3::RespBody,
        flags,
        message_id,
        seq,
        seq_total,
        payload_len: (payload.len() % 0x10000) as u16,
    };
    let include_tag = flags & FLAG_ENCRYPT != 0;
    finalize_packet(&header, payload.as_slice(), psk, include_tag)
}

/// The encoding of a v3 NACK packet: one length byte, then the bitmap.
pub open spec fn spec_encode_nack_v3(
    packet_type: PacketTypeV3,
    bitmap: Seq<u8>,
    message_id: u64,
    flags: u8,
    psk: Seq<u8>,
) -> Result<Seq<u8>, AkariError> {
    let payload = seq![(bitmap.len() % 0x100) as u8] + bitmap;
    let h = HeaderV3 {
        packet_type,
        flags,
        message_id,
        seq: 0,
        seq_total: 1,
        payload_len: (payload.len() % 0x10000) as u16,
    };
    spec_finalize_v3(h, payload, psk, true)
}

/// Encode a v3 NackHead packet over a header-index bitmap.
pub fn encode_nack_head_v3(bitmap: &[u8], message_id: u64, flags: u8, psk: &[u8]) -> (r: Result<
    Vec<u8>,
    AkariError,
>)
    ensures
        r matches Ok(v) ==> spec_encode_nack_v3(PacketTypeV3::NackHead, bitmap@, message_id, flags, psk@)
            == Ok::<_, AkariError>(v@),
        r matches Err(e) ==> spec_encode_nack_v3(PacketTypeV3::NackHead, bitmap@, message_id, flags, psk@)
            == Err::<Seq<u8>, _>(e),
{
    encode_nack_v3(PacketTypeV3::NackHead, bitmap, message_id, flags, psk)
}

/// Encode a v3 NackBody packet over a body-seq bitmap.
pub fn encode_nack_body_v3(bitmap: &[u8], message_id: u64, flags: u8, psk: &[u8]) -> (r: Result<
    Vec<u8>,
    AkariError,
>)
    ensures
        r matches Ok(v) ==> spec_encode_nack_v3(PacketTypeV3::NackBody, bitmap@, message_id, flags, psk@)
            == Ok::<_, AkariError>(v@),
        r matches Err(e) ==> spec_encode_nack_v3(PacketTypeV3::NackBody, bitmap@, message_id, flags, psk@)
            == Err::<Seq<u8>, _>(e),
{
    encode_nack_v3(PacketTypeV3::NackBody, bitmap, message_id, flags, psk)
}

/// Encode either kind of v3 NACK packet.
fn encode_nack_v3(packet_type: PacketTypeV3, bitmap: &[u8], message_id: u64, flags: u8, psk: &[u8]) -> (r: Result<
    Vec<u8>,
    AkariError,
>)
    ensures
        r matches Ok(v) ==> spec_encode_nack_v3(packet_type, bitmap@, message_id, flags, psk@)
            == Ok::<_, AkariError>(v@),
        r matches Err(e) ==> spec_encode_nack_v3(packet_type, bitmap@, message_id, flags, psk@)
            == Err::<Seq<u8>, _>(e),
{
    let mut payload: Vec<u8> = Vec::new();
    payload.push((bitmap.len() % 0x100) as u8);
    push_bytes(&mut payload, bitmap);
    let header = HeaderV3 {
        packet_type,
        flags,
        message_id,
        seq: 0,
        seq_total: 1,
        payload_len: (payload.len() % 0x10000) as u16,
    };
    assert(payload@ =~= seq![(bitmap@.len() % 0x100) as u8] + bitmap@);
    finalize_packet(&header, payload.as_slice(), psk, true)
}

/// The encoding of a v3 Error packet: error code, HTTP status, then the
/// UTF-8 message.
pub open spec fn spec_encode_error_v3(
    message: Seq<char>,
    code: u8,
    http_status: u16,
    message_id: u64,
    flags: u8,
    psk: Seq<u8>,
) -> Result<Seq<u8>, AkariError> {
    let payload = seq![code] + u16_be(http_status) + encode_utf8(message);
    let h = HeaderV3 {
        packet_type: PacketTypeV3::Error,
        flags,
        message_id,
        seq: 0,
        seq_total: 1,
        payload_len: (payload.len() % 0x10000) as u16,
    };
    spec_finalize_v3(h, payload, psk, true)
}

/// Encode a v3 Error packet.
pub fn encode_error_v3(
    message: &str,
    code: u8,
    http_status: u16,
    message_id: u64,
    flags: u8,
    psk: &[u8],
) -> (r: Result<Vec<u8>, AkariError>)
    ensures
        r matches Ok(v) ==> spec_encode_error_v3(message@, code, http_status, message_id, flags, psk@)
            == Ok::<_, AkariError>(v@),
        r matches Err(e) ==> spec_encode_error_v3(message@, code, http_status, message_id, flags, psk@)
            == Err::<Seq<u8>, _>(e),
{
    let msg_bytes = message.as_bytes();
    let mut payload: Vec<u8> = Vec::new();
    payload.push(code);
    push_u16_be(&mut payload, http_status);
    push_bytes(&mut payload, msg_bytes);
    let header = HeaderV3 {
        packet_type: PacketTypeV3::Error,
        flags,
        message_id,
        seq: 0,
        seq_total: 1,
        payload_len: (payload.len() % 0x10000) as u16,
    };
    assert(payload@ =~= seq![code] + u16_be(http_status) + encode_utf8(message@));
    finalize_packet(&header, payload.as_slice(), psk, true)
}

/// The largest body chunk an MTU leaves room for, after the header and the
/// 16-byte tag.
pub fn max_body_chunk_len(mtu: usize, header_len: usize) -> (r: usize)
    ensures
        r == if mtu >= header_len + TAG_LEN {
            mtu - header_len - TAG_LEN
        } else {
            0
        },
{
    if mtu >= header_len && mtu - header_len >= TAG_LEN {
        mtu - header_len - TAG_LEN
    } else {
        0
    }
}

} // verus!
