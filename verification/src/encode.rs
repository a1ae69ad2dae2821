//! Legacy v1/v2 packet encoders.

use vstd::prelude::*;
use vstd::utf8::encode_utf8;

use crate::bytes_be::{push_bytes, push_u16_be, push_u32_be, u16_be, u32_be};
use crate::crypto::{compute_tag, derived_key, nonce_bytes, seal_payload, tag_of, xchacha_seal};
use crate::error::AkariError;
use crate::header::{spec_header_bytes, Header, MessageType, VERSION_V1, VERSION_V2};
use crate::header_v3::FLAG_ENCRYPT;
use crate::payload::{method_byte, RequestMethod, ACK_PAYLOAD_LEN};

verus! {

/// Largest payload the 16-bit length field can declare.
pub const MAX_PAYLOAD: usize = 0xFFFF;

/// The bytes of a finished v1/v2 packet: header, then payload, then the
/// 16-byte HMAC tag — or, when FLAG_ENCRYPT is set, the AEAD ciphertext and
/// tag over the payload with the header as associated data.
pub open spec fn spec_assemble(h: Header, payload: Seq<u8>, psk: Seq<u8>) -> Seq<u8> {
    let hb = spec_header_bytes(h);
    if h.flags & FLAG_ENCRYPT != 0 {
        hb + xchacha_seal(derived_key(psk), nonce_bytes(h.message_id, h.seq, h.flags), hb, payload)
    } else {
        hb + payload + tag_of(psk, hb + payload)
    }
}

/// Finishing a packet: rejected when the payload disagrees with the length
/// the header declares, assembled otherwise.
pub open spec fn spec_finalize(h: Header, payload: Seq<u8>, psk: Seq<u8>) -> Result<Seq<u8>, AkariError> {
    if payload.len() != h.payload_len {
        Err(AkariError::InvalidPacketLength { expected: h.payload_len as usize, actual: payload.len() as usize })
    } else {
        Ok(spec_assemble(h, payload, psk))
    }
}

/// Close a v1/v2 packet over its payload.
fn finalize_packet(header: &Header, payload: &[u8], psk: &[u8]) -> (r: Result<Vec<u8>, AkariError>)
    requires
        payload@.len() <= MAX_PAYLOAD,
    ensures
        r matches Ok(v) ==> spec_finalize(*header, payload@, psk@) == Ok::<_, AkariError>(v@),
        r matches Err(e) ==> spec_finalize(*header, payload@, psk@) == Err::<Seq<u8>, _>(e),
{
    if payload.len() != header.payload_len as usize {
        return Err(
            AkariError::InvalidPacketLength { expected: header.payload_len as usize, actual: payload.len() },
        );
    }
    let header_bytes = header.to_bytes();
    let mut buf: Vec<u8> = Vec::new();
    push_bytes(&mut buf, header_bytes.as_slice());
    if header.flags & FLAG_ENCRYPT != 0 {
        let sealed = seal_payload(
            psk,
            header.message_id,
            header.seq,
            header.flags,
            header_bytes.as_slice(),
            payload,
        );
        push_bytes(&mut buf, sealed.as_slice());
        assert(buf@ =~= spec_assemble(*header, payload@, psk@));
        Ok(buf)
    } else {
        push_bytes(&mut buf, payload);
        let tag = match compute_tag(psk, buf.as_slice()) {
            Ok(t) => t,
            Err(e) => {
                return Err(e);
            },
        };
        push_bytes(&mut buf, tag.as_slice());
        assert(buf@ =~= spec_assemble(*header, payload@, psk@));
        Ok(buf)
    }
}

/// A payload length the 16-bit length field can hold, or the size that
/// overflowed it.
pub fn ensure_payload_size(total: usize) -> (r: Result<usize, AkariError>)
    ensures
        total <= MAX_PAYLOAD ==> r == Ok::<usize, AkariError>(total),
        total > MAX_PAYLOAD ==> r == Err::<usize, AkariError>(AkariError::PayloadTooLarge(total)),
{
    if total > MAX_PAYLOAD {
        Err(AkariError::PayloadTooLarge(total))
    } else {
        Ok(total)
    }
}

/// The encoding of a v1 request packet: GET only, with a reserved byte in
/// place of v2's header-block length.
pub open spec fn spec_encode_request(url: Seq<char>, message_id: u64, timestamp: u32, psk: Seq<u8>) -> Result<
    Seq<u8>,
    AkariError,
> {
    let urlb = encode_utf8(url);
    if 4 + urlb.len() > MAX_PAYLOAD {
        Err(AkariError::PayloadTooLarge((4 + urlb.len()) as usize))
    } else {
        let payload = seq![0u8] + u16_be(urlb.len() as u16) + seq![0u8] + urlb;
        let h = Header {
            version: VERSION_V1,
            message_type: MessageType::Req,
            flags: 0,
            reserved: 0,
            message_id,
            seq: 0,
            seq_total: 1,
            payload_len: payload.len() as u16,
            timestamp,
        };
        Ok(spec_assemble(h, payload, psk))
    }
}

/// Encode a v1 request packet.
pub fn encode_request(url: &str, message_id: u64, timestamp: u32, psk: &[u8]) -> (r: Result<Vec<u8>, AkariError>)
    requires
        encode_utf8(url@).len() <= usize::MAX - 4,
    ensures
        r matches Ok(v) ==> spec_encode_request(url@, message_id, timestamp, psk@) == Ok::<_, AkariError>(v@),
        r matches Err(e) ==> spec_encode_request(url@, message_id, timestamp, psk@) == Err::<Seq<u8>, _>(e),
{
    let url_bytes = url.as_bytes();
    if url_bytes.len() > MAX_PAYLOAD - 4 {
        return Err(AkariError::PayloadTooLarge(4 + url_bytes.len()));
    }
    let mut payload: Vec<u8> = Vec::new();
    payload.push(RequestMethod::Get.to_byte());
    push_u16_be(&mut payload, url_bytes.len() as u16);
    payload.push(0);
    push_bytes(&mut payload, url_bytes);
    let header = Header {
        version: VERSION_V1,
        message_type: MessageType::Req,
        flags: 0,
        reserved: 0,
        message_id,
        seq: 0,
        seq_total: 1,
        payload_len: payload.len() as u16,
        timestamp,
    };
    assert(payload@ =~= seq![0u8] + u16_be(encode_utf8(url@).len() as u16) + seq![0u8] + encode_utf8(url@));
    finalize_packet(&header, payload.as_slice(), psk)
}

/// The encoding of a v1 first response chunk: status, a reserved field, the
/// declared body length, then the first body bytes.
pub open spec fn spec_encode_response_first_chunk(
    status_code: u16,
    body_len: u32,
    body_chunk: Seq<u8>,
    message_id: u64,
    seq_total: u16,
    timestamp: u32,
    psk: Seq<u8>,
) -> Result<Seq<u8>, AkariError> {
    if 8 + body_chunk.len() > MAX_PAYLOAD {
        Err(AkariError::PayloadTooLarge((8 + body_chunk.len()) as usize))
    } else {
        let payload = u16_be(status_code) + u16_be(0) + u32_be(body_len) + body_chunk;
        let h = Header {
            version: VERSION_V1,
            message_type: MessageType::Resp,
            flags: 0,
            reserved: 0,
            message_id,
            seq: 0,
            seq_total,
            payload_len: payload.len() as u16,
            timestamp,
        };
        Ok(spec_assemble(h, payload, psk))
    }
}

/// Encode a v1 first response chunk.
pub fn encode_response_first_chunk(
    status_code: u16,
    body_len: u32,
    body_chunk: &[u8],
    message_id: u64,
    seq_total: u16,
    timestamp: u32,
    psk: &[u8],
) -> (r: Result<Vec<u8>, AkariError>)
    requires
        body_chunk@.len() <= usize::MAX - 8,
    ensures
        r matches Ok(v) ==> spec_encode_response_first_chunk(
            status_code,
            body_len,
            body_chunk@,
            message_id,
            seq_total,
            timestamp,
            psk@,
        ) == Ok::<_, AkariError>(v@),
        r matches Err(e) ==> spec_encode_response_first_chunk(
            status_code,
            body_len,
            body_chunk@,
            message_id,
            seq_total,
            timestamp,
            psk@,
        ) == Err::<Seq<u8>, _>(e),
{
    if body_chunk.len() > MAX_PAYLOAD - 8 {
        return Err(AkariError::PayloadTooLarge(8 + body_chunk.len()));
    }
    let mut payload: Vec<u8> = Vec::new();
    push_u16_be(&mut payload, status_code);
    push_u16_be(&mut payload, 0);
    push_u32_be(&mut payload, body_len);
    push_bytes(&mut payload, body_chunk);
    let header = Header {
        version: VERSION_V1,
        message_type: MessageType::Resp,
        flags: 0,
        reserved: 0,
        message_id,
        seq: 0,
        seq_total,
        payload_len: payload.len() as u16,
        timestamp,
    };
    assert(payload@ =~= u16_be(status_code) + u16_be(0) + u32_be(body_len) + body_chunk@);
    finalize_packet(&header, payload.as_slice(), psk)
}

/// The encoding of a v1 later response chunk: the raw body bytes.
pub open spec fn spec_encode_response_chunk(
    body_chunk: Seq<u8>,
    message_id: u64,
    seq: u16,
    seq_total: u16,
    timestamp: u32,
    psk: Seq<u8>,
) -> Result<Seq<u8>, AkariError> {
    if body_chunk.len() > MAX_PAYLOAD {
        Err(AkariError::PayloadTooLarge(body_chunk.len() as usize))
    } else {
        let h = Header {
            version: VERSION_V1,
            message_type: MessageType::Resp,
            flags: 0,
            reserved: 0,
            message_id,
            seq,
            seq_total,
            payload_len: body_chunk.len() as u16,
            timestamp,
        };
        Ok(spec_assemble(h, body_chunk, psk))
    }
}

/// Encode a v1 later response chunk.
pub fn encode_response_chunk(
    body_chunk: &[u8],
    message_id: u64,
    seq: u16,
    seq_total: u16,
    timestamp: u32,
    psk: &[u8],
) -> (r: Result<Vec<u8>, AkariError>)
    ensures
        r matches Ok(v) ==> spec_encode_response_chunk(body_chunk@, message_id, seq, seq_total, timestamp, psk@)
            == Ok::<_, AkariError>(v@),
        r matches Err(e) ==> spec_encode_response_chunk(body_chunk@, message_id, seq, seq_total, timestamp, psk@)
            == Err::<Seq<u8>, _>(e),
{
    if body_chunk.len() > MAX_PAYLOAD {
        return Err(AkariError::PayloadTooLarge(body_chunk.len()));
    }
    let header = Header {
        version: VERSION_V1,
        message_type: MessageType::Resp,
        flags: 0,
        reserved: 0,
        message_id,
        seq,
        seq_total,
        payload_len: body_chunk.len() as u16,
        timestamp,
    };
    finalize_packet(&header, body_chunk, psk)
}

/// The encoding of a v1/v2 Error payload: code, a pad byte, the HTTP
/// status, the message length, two pad bytes, then the message.
pub open spec fn spec_error_payload(error_code: u8, http_status: u16, message: Seq<char>) -> Seq<u8> {
    seq![error_code, 0u8] + u16_be(http_status) + u16_be((encode_utf8(message).len() % 0x10000) as u16) + u16_be(0)
        + encode_utf8(message)
}

/// The encoding of a v1 Error packet.
pub open spec fn spec_encode_error(
    error_code: u8,
    http_status: u16,
    message: Seq<char>,
    message_id: u64,
    timestamp: u32,
    psk: Seq<u8>,
) -> Result<Seq<u8>, AkariError> {
    if 8 + encode_utf8(message).len() > MAX_PAYLOAD {
        Err(AkariError::PayloadTooLarge((8 + encode_utf8(message).len()) as usize))
    } else {
        let payload = spec_error_payload(error_code, http_status, message);
        let h = Header {
            version: VERSION_V1,
            message_type: MessageType::Error,
            flags: 0,
            reserved: 0,
            message_id,
            seq: 0,
            seq_total: 1,
            payload_len: payload.len() as u16,
            timestamp,
        };
        Ok(spec_assemble(h, payload, psk))
    }
}

/// Encode a v1 Error packet.
pub fn encode_error(
    error_code: u8,
    http_status: u16,
    message: &str,
    message_id: u64,
    timestamp: u32,
    psk: &[u8],
) -> (r: Result<Vec<u8>, AkariError>)
    requires
        encode_utf8(message@).len() <= usize::MAX - 8,
    ensures
        r matches Ok(v) ==> spec_encode_error(error_code, http_status, message@, message_id, timestamp, psk@)
            == Ok::<_, AkariError>(v@),
        r matches Err(e) ==> spec_encode_error(error_code, http_status, message@, message_id, timestamp, psk@)
            == Err::<Seq<u8>, _>(e),
{
    let msg_bytes = message.as_bytes();
    if msg_bytes.len() > MAX_PAYLOAD - 8 {
        return Err(AkariError::PayloadTooLarge(8 + msg_bytes.len()));
    }
    let payload = build_error_payload(error_code, http_status, msg_bytes);
    let header = Header {
        version: VERSION_V1,
        message_type: MessageType::Error,
        flags: 0,
        reserved: 0,
        message_id,
        seq: 0,
        seq_total: 1,
        payload_len: payload.len() as u16,
        timestamp,
    };
    assert(payload@ =~= spec_error_payload(error_code, http_status, message@));
    finalize_packet(&header, payload.as_slice(), psk)
}

/// Build the shared v1/v2 Error payload bytes.
fn build_error_payload(error_code: u8, http_status: u16, msg_bytes: &[u8]) -> (r: Vec<u8>)
    ensures
        r@ == seq![error_code, 0u8] + u16_be(http_status) + u16_be((msg_bytes@.len() % 0x10000) as u16) + u16_be(0)
            + msg_bytes@,
{
    let mut payload: Vec<u8> = Vec::new();
    payload.push(error_code);
    payload.push(0);
    push_u16_be(&mut payload, http_status);
    push_u16_be(&mut payload, (msg_bytes.len() % 0x10000) as u16);
    push_u16_be(&mut payload, 0);
    push_bytes(&mut payload, msg_bytes);
    assert(payload@ =~= seq![error_code, 0u8] + u16_be(http_status) + u16_be(
        (msg_bytes@.len() % 0x10000) as u16,
    ) + u16_be(0) + msg_bytes@);
    payload
}

/// The encoding of a v2 request packet: method, URL and header-block
/// lengths, then the two byte strings.
pub open spec fn spec_encode_request_v2(
    method: RequestMethod,
    url: Seq<char>,
    header_block: Seq<u8>,
    message_id: u64,
    timestamp: u32,
    flags: u8,
    psk: Seq<u8>,
) -> Result<Seq<u8>, AkariError> {
    let urlb = encode_utf8(url);
    if 5 + urlb.len() + header_block.len() > MAX_PAYLOAD {
        Err(AkariError::PayloadTooLarge((5 + urlb.len() + header_block.len()) as usize))
    } else {
        let payload = seq![method_byte(method)] + u16_be(urlb.len() as u16) + u16_be(header_block.len() as u16)
            + urlb + header_block;
        let h = Header {
            version: VERSION_V2,
            message_type: MessageType::Req,
            flags,
            reserved: 0,
            message_id,
            seq: 0,
            seq_total: 1,
            payload_len: payload.len() as u16,
            timestamp,
        };
        Ok(spec_assemble(h, payload, psk))
    }
}

/// Encode a v2 request packet.
pub fn encode_request_v2(
    method: RequestMethod,
    url: &str,
    header_block: &[u8],
    message_id: u64,
    timestamp: u32,
    flags: u8,
    psk: &[u8],
) -> (r: Result<Vec<u8>, AkariError>)
    requires
        encode_utf8(url@).len() + header_block@.len() <= usize::MAX - 5,
    ensures
        r matches Ok(v) ==> spec_encode_request_v2(
            method,
            url@,
            header_block@,
            message_id,
            timestamp,
            flags,
            psk@,
        ) == Ok::<_, AkariError>(v@),
        r matches Err(e) ==> spec_encode_request_v2(
            method,
            url@,
            header_block@,
            message_id,
            timestamp,
            flags,
            psk@,
        ) == Err::<Seq<u8>, _>(e),
{
    let url_bytes = url.as_bytes();
    if url_bytes.len() > MAX_PAYLOAD - 5 || header_block.len() > MAX_PAYLOAD - 5 - url_bytes.len() {
        return Err(AkariError::PayloadTooLarge(5 + url_bytes.len() + header_block.len()));
    }
    let mut payload: Vec<u8> = Vec::new();
    payload.push(method.to_byte());
    push_u16_be(&mut payload, url_bytes.len() as u16);
    push_u16_be(&mut payload, header_block.len() as u16);
    push_bytes(&mut payload, url_bytes);
    push_bytes(&mut payload, header_block);
    let header = Header {
        version: VERSION_V2,
        message_type: MessageType::Req,
        flags,
        reserved: 0,
        message_id,
        seq: 0,
        seq_total: 1,
        payload_len: payload.len() as u16,
        timestamp,
    };
    proof {
        let urlb = encode_utf8(url@);
        assert(payload@ =~= seq![method_byte(method)] + u16_be(urlb.len() as u16) + u16_be(
            header_block@.len() as u16,
        ) + urlb + header_block@);
    }
    finalize_packet(&header, payload.as_slice(), psk)
}

/// The encoding of a v2 first response chunk: status, the header-block
/// length, the declared body length, the header block, then the first body
/// bytes.
pub open spec fn spec_encode_response_first_chunk_v2(
    status_code: u16,
    body_len: u32,
    header_block: Seq<u8>,
    body_chunk: Seq<u8>,
    message_id: u64,
    seq_total: u16,
    flags: u8,
    timestamp: u32,
    psk: Seq<u8>,
) -> Result<Seq<u8>, AkariError> {
    if 8 + header_block.len() + body_chunk.len() > MAX_PAYLOAD {
        Err(AkariError::PayloadTooLarge((8 + header_block.len() + body_chunk.len()) as usize))
    } else {
        let payload = u16_be(status_code) + u16_be(header_block.len() as u16) + u32_be(body_len) + header_block
            + body_chunk;
        let h = Header {
            version: VERSION_V2,
            message_type: MessageType::Resp,
            flags,
            reserved: 0,
            message_id,
            seq: 0,
            seq_total,
            payload_len: payload.len() as u16,
            timestamp,
        };
        Ok(spec_assemble(h, payload, psk))
    }
}

/// Encode a v2 first response chunk.
pub fn encode_response_first_chunk_v2(
    status_code: u16,
    body_len: u32,
    header_block: &[u8],
    body_chunk: &[u8],
    message_id: u64,
    seq_total: u16,
    flags: u8,
    timestamp: u32,
    psk: &[u8],
) -> (r: Result<Vec<u8>, AkariError>)
    requires
        header_block@.len() + body_chunk@.len() <= usize::MAX - 8,
    ensures
        r matches Ok(v) ==> spec_encode_response_first_chunk_v2(
            status_code,
            body_len,
            header_block@,
            body_chunk@,
            message_id,
            seq_total,
            flags,
            timestamp,
            psk@,
        ) == Ok::<_, AkariError>(v@),
        r matches Err(e) ==> spec_encode_response_first_chunk_v2(
            status_code,
            body_len,
            header_block@,
            body_chunk@,
            message_id,
            seq_total,
            flags,
            timestamp,
            psk@,
        ) == Err::<Seq<u8>, _>(e),
{
    if header_block.len() > MAX_PAYLOAD - 8 || body_chunk.len() > MAX_PAYLOAD - 8 - header_block.len() {
        return Err(AkariError::PayloadTooLarge(8 + header_block.len() + body_chunk.len()));
    }
    let mut payload: Vec<u8> = Vec::new();
    push_u16_be(&mut payload, status_code);
    push_u16_be(&mut payload, header_block.len() as u16);
    push_u32_be(&mut payload, body_len);
    push_bytes(&mut payload, header_block);
    push_bytes(&mut payload, body_chunk);
    let header = Header {
        version: VERSION_V2,
        message_type: MessageType::Resp,
        flags,
        reserved: 0,
        message_id,
        seq: 0,
        seq_total,
        payload_len: payload.len() as u16,
        timestamp,
    };
    assert(payload@ =~= u16_be(status_code) + u16_be(header_block@.len() as u16) + u32_be(body_len)
        + header_block@ + body_chunk@);
    finalize_packet(&header, payload.as_slice(), psk)
}

/// The encoding of a v2 later response chunk: the raw body bytes.
pub open spec fn spec_encode_response_chunk_v2(
    body_chunk: Seq<u8>,
    message_id: u64,
    seq: u16,
    seq_total: u16,
    flags: u8,
    timestamp: u32,
    psk: Seq<u8>,
) -> Result<Seq<u8>, AkariError> {
    if body_chunk.len() > MAX_PAYLOAD {
        Err(AkariError::PayloadTooLarge(body_chunk.len() as usize))
    } else {
        let h = Header {
            version: VERSION_V2,
            message_type: MessageType::Resp,
            flags,
            reserved: 0,
            message_id,
            seq,
            seq_total,
            payload_len: body_chunk.len() as u16,
            timestamp,
        };
        Ok(spec_assemble(h, body_chunk, psk))
    }
}

/// Encode a v2 later response chunk.
pub fn encode_response_chunk_v2(
    body_chunk: &[u8],
    message_id: u64,
    seq: u16,
    seq_total: u16,
    flags: u8,
    timestamp: u32,
    psk: &[u8],
) -> (r: Result<Vec<u8>, AkariError>)
    ensures
        r matches Ok(v) ==> spec_encode_response_chunk_v2(
            body_chunk@,
            message_id,
            seq,
            seq_total,
            flags,
            timestamp,
            psk@,
        ) == Ok::<_, AkariError>(v@),
        r matches Err(e) ==> spec_encode_response_chunk_v2(
            body_chunk@,
            message_id,
            seq,
            seq_total,
            flags,
            timestamp,
            psk@,
        ) == Err::<Seq<u8>, _>(e),
{
    if body_chunk.len() > MAX_PAYLOAD {
        return Err(AkariError::PayloadTooLarge(body_chunk.len()));
    }
    let header = Header {
        version: VERSION_V2,
        message_type: MessageType::Resp,
        flags,
        reserved: 0,
        message_id,
        seq,
        seq_total,
        payload_len: body_chunk.len() as u16,
        timestamp,
    };
    finalize_packet(&header, body_chunk, psk)
}

/// The encoding of a v2 Ack packet: the first lost sequence number.
pub open spec fn spec_encode_ack_v2(first_lost_seq: u16, message_id: u64, timestamp: u32, psk: Seq<u8>) -> Result<
    Seq<u8>,
    AkariError,
> {
    let h = Header {
        version: VERSION_V2,
        message_type: MessageType::Ack,
        flags: 0,
        reserved: 0,
        message_id,
        seq: 0,
        seq_total: 1,
        payload_len: ACK_PAYLOAD_LEN as u16,
        timestamp,
    };
    Ok(spec_assemble(h, u16_be(first_lost_seq), psk))
}

/// Encode a v2 Ack packet.
pub fn encode_ack_v2(first_lost_seq: u16, message_id: u64, timestamp: u32, psk: &[u8]) -> (r: Result<
    Vec<u8>,
    AkariError,
>)
    ensures
        r matches Ok(v) ==> spec_encode_ack_v2(first_lost_seq, message_id, timestamp, psk@)
            == Ok::<_, AkariError>(v@),
        r matches Err(e) ==> spec_encode_ack_v2(first_lost_seq, message_id, timestamp, psk@)
            == Err::<Seq<u8>, _>(e),
{
    let mut payload: Vec<u8> = Vec::new();
    push_u16_be(&mut payload, first_lost_seq);
    let header = Header {
        version: VERSION_V2,
        message_type: MessageType::Ack,
        flags: 0,
        reserved: 0,
        message_id,
        seq: 0,
        seq_total: 1,
        payload_len: ACK_PAYLOAD_LEN as u16,
        timestamp,
    };
    finalize_packet(&header, payload.as_slice(), psk)
}

/// The encoding of a v2 Nack packet: one length byte, then the bitmap.
pub open spec fn spec_encode_nack_v2(bitmap: Seq<u8>, message_id: u64, timestamp: u32, psk: Seq<u8>) -> Result<
    Seq<u8>,
    AkariError,
> {
    if 1 + bitmap.len() > MAX_PAYLOAD {
        Err(AkariError::PayloadTooLarge((1 + bitmap.len()) as usize))
    } else {
        let payload = seq![(bitmap.len() % 0x100) as u8] + bitmap;
        let h = Header {
            version: VERSION_V2,
            message_type: MessageType::Nack,
            flags: 0,
            reserved: 0,
            message_id,
            seq: 0,
            seq_total: 1,
            payload_len: payload.len() as u16,
            timestamp,
        };
        Ok(spec_assemble(h, payload, psk))
    }
}

/// Encode a v2 Nack packet.
pub fn encode_nack_v2(bitmap: &[u8], message_id: u64, timestamp: u32, psk: &[u8]) -> (r: Result<
    Vec<u8>,
    AkariError,
>)
    requires
        bitmap@.len() <= usize::MAX - 1,
    ensures
        r matches Ok(v) ==> spec_encode_nack_v2(bitmap@, message_id, timestamp, psk@) == Ok::<_, AkariError>(v@),
        r matches Err(e) ==> spec_encode_nack_v2(bitmap@, message_id, timestamp, psk@) == Err::<Seq<u8>, _>(e),
{
    if bitmap.len() > MAX_PAYLOAD - 1 {
        return Err(AkariError::PayloadTooLarge(1 + bitmap.len()));
    }
    let mut payload: Vec<u8> = Vec::new();
    payload.push((bitmap.len() % 0x100) as u8);
    push_bytes(&mut payload, bitmap);
    let header = Header {
        version: VERSION_V2,
        message_type: MessageType::Nack,
        flags: 0,
        reserved: 0,
        message_id,
        seq: 0,
        seq_total: 1,
        payload_len: payload.len() as u16,
        timestamp,
    };
    assert(payload@ =~= seq![(bitmap@.len() % 0x100) as u8] + bitmap@);
    finalize_packet(&header, payload.as_slice(), psk)
}

/// The encoding of a v2 Error packet.
pub open spec fn spec_encode_error_v2(
    error_code: u8,
    http_status: u16,
    message: Seq<char>,
    message_id: u64,
    timestamp: u32,
    psk: Seq<u8>,
) -> Result<Seq<u8>, AkariError> {
    if 8 + encode_utf8(message).len() > MAX_PAYLOAD {
        Err(AkariError::PayloadTooLarge((8 + encode_utf8(message).len()) as usize))
    } else {
        let payload = spec_error_payload(error_code, http_status, message);
        let h = Header {
            version: VERSION_V2,
            message_type: MessageType::Error,
            flags: 0,
            reserved: 0,
            message_id,
            seq: 0,
            seq_total: 1,
            payload_len: payload.len() as u16,
            timestamp,
        };
        Ok(spec_assemble(h, payload, psk))
    }
}

/// Encode a v2 Error packet.
pub fn encode_error_v2(
    error_code: u8,
    http_status: u16,
    message: &str,
    message_id: u64,
    timestamp: u32,
    psk: &[u8],
) -> (r: Result<Vec<u8>, AkariError>)
    requires
        encode_utf8(message@).len() <= usize::MAX - 8,
    ensures
        r matches Ok(v) ==> spec_encode_error_v2(error_code, http_status, message@, message_id, timestamp, psk@)
            == Ok::<_, AkariError>(v@),
        r matches Err(e) ==> spec_encode_error_v2(error_code, http_status, message@, message_id, timestamp, psk@)
            == Err::<Seq<u8>, _>(e),
{
    let msg_bytes = message.as_bytes();
    if msg_bytes.len() > MAX_PAYLOAD - 8 {
        return Err(AkariError::PayloadTooLarge(8 + msg_bytes.len()));
    }
    let payload = build_error_payload(error_code, http_status, msg_bytes);
    let header = Header {
        version: VERSION_V2,
        message_type: MessageType::Error,
        flags: 0,
        reserved: 0,
        message_id,
        seq: 0,
        seq_total: 1,
        payload_len: payload.len() as u16,
        timestamp,
    };
    assert(payload@ =~= spec_error_payload(error_code, http_status, message@));
    finalize_packet(&header, payload.as_slice(), psk)
}

} // verus!
