//! The protocol's laws, stated and proved over the codec and accumulator
//! models: round trips of the wire format, exclusivity of the
//! authentication modes, rejection of tampered trailers, and the
//! order-insensitivity of the accumulator.

use vstd::prelude::*;
use vstd::utf8::encode_utf8;

use crate::bytes_be::{
    lemma_u16_be_round_trip, lemma_u24_be_round_trip, lemma_u32_be_round_trip, u16_be, u16_from_be, u24_be, u32_be,
};
use crate::client::{
    spec_add_body, spec_add_head, spec_add_head_cont, spec_assemble_chunks, spec_body_complete,
    spec_insert_chunk, AccModel,
};
use crate::crypto::{lemma_tag_of_len, tag_of, TAG_LEN};
use crate::decode_v3::{
    spec_decode_nack_v3, spec_decode_packet_v3, spec_decode_payload_v3, spec_decode_request_v3,
};
use crate::encode_v3::{
    spec_encode_error_v3, spec_encode_nack_v3, spec_encode_request_v3, spec_encode_resp_body_v3,
    spec_encode_resp_body_v3_agg, spec_encode_resp_head_cont_v3, spec_encode_resp_head_v3, spec_finalize_v3,
};
use crate::error::AkariError;
use crate::header_v3::{
    header_v3_canonical, id_len_of, lemma_header_v3_round_trip, spec_header_v3_bytes, spec_parse_header_v3,
    HeaderV3, PacketTypeV3, FIXED_LEN, FLAG_AGG_TAG, FLAG_ENCRYPT, FLAG_SHORT_ID, FLAG_SHORT_LEN,
};
use crate::payload::{
    method_byte, spec_method, RequestMethod, SpecParsedPacketV3, SpecPayloadV3, SpecRequestPayload,
    SpecRespBodyPayloadV3,
};

verus! {

/// Framing round trip, per-packet-tag mode: a packet assembled from a
/// well-formed header and its payload, closed with the HMAC trailer,
/// decodes back to that header and to whatever the payload itself decodes
/// to.
#[verifier::rlimit(100)]
#[verifier::spinoff_prover]
pub proof fn lemma_tagged_frame_round_trip(h: HeaderV3, payload: Seq<u8>, psk: Seq<u8>)
    requires
        header_v3_canonical(h),
        h.flags & FLAG_ENCRYPT == 0,
        !(h.flags & FLAG_AGG_TAG != 0 && h.packet_type == PacketTypeV3::RespBody),
        payload.len() == h.payload_len,
    ensures
        ({
            &&& spec_finalize_v3(h, payload, psk, true) matches Ok(d)
            &&& spec_decode_packet_v3(d, psk) == match spec_decode_payload_v3(h, payload) {
                Ok(pl) => Ok(SpecParsedPacketV3 { header: h, payload: pl }),
                Err(e) => Err::<SpecParsedPacketV3, AkariError>(e),
            }
        }),
{
    let hb = spec_header_v3_bytes(h);
    let tag = tag_of(psk, hb + payload);
    lemma_tag_of_len(psk, hb + payload);
    let d = hb + payload + tag;
    assert(spec_finalize_v3(h, payload, psk, true) == Ok::<Seq<u8>, AkariError>(d));
    let header_len = FIXED_LEN + id_len_of(h.flags);
    assert(hb.len() == header_len);
    assert(d.len() == header_len + payload.len() + TAG_LEN);
    assert(d =~= hb + (payload + tag));
    lemma_header_v3_round_trip(h, payload + tag);
    assert(spec_parse_header_v3(d) == Ok::<HeaderV3, AkariError>(h));
    assert(d.subrange(header_len, header_len + h.payload_len as int) =~= payload);
    assert(d.subrange(header_len + h.payload_len as int, d.len() as int) =~= tag);
    assert(d.take(header_len + h.payload_len as int) =~= hb + payload);
}

/// Framing round trip, aggregate mode: the final-trailer-free body packets
/// of an aggregate-tagged response decode back to their header and
/// payload.
pub proof fn lemma_agg_frame_round_trip(h: HeaderV3, payload: Seq<u8>, psk: Seq<u8>)
    requires
        header_v3_canonical(h),
        h.flags & FLAG_ENCRYPT == 0,
        h.flags & FLAG_AGG_TAG != 0,
        h.packet_type == PacketTypeV3::RespBody,
        payload.len() == h.payload_len,
    ensures
        ({
            &&& spec_finalize_v3(h, payload, psk, false) matches Ok(d)
            &&& spec_decode_packet_v3(d, psk) == match spec_decode_payload_v3(h, payload) {
                Ok(pl) => Ok(SpecParsedPacketV3 { header: h, payload: pl }),
                Err(e) => Err::<SpecParsedPacketV3, AkariError>(e),
            }
        }),
{
    let hb = spec_header_v3_bytes(h);
    let d = hb + payload;
    assert(spec_finalize_v3(h, payload, psk, false) == Ok::<Seq<u8>, AkariError>(d));
    let header_len = FIXED_LEN + id_len_of(h.flags);
    assert(hb.len() == header_len);
    lemma_header_v3_round_trip(h, payload);
    assert(spec_parse_header_v3(d) == Ok::<HeaderV3, AkariError>(h));
    assert(d.subrange(header_len, header_len + h.payload_len as int) =~= payload);
}

/// Round trip of a request packet: encoding a request and decoding the
/// datagram under the same PSK gives back the method, the URL and the
/// header block, for every unencrypted flag combination. A short message
/// id must fit its 16 bits.
/// The request payload bytes decode back to their fields.
#[verifier::rlimit(100)]
#[verifier::spinoff_prover]
proof fn lemma_request_payload_decodes(method: RequestMethod, url: Seq<char>, header_block: Seq<u8>)
    requires
        5 + encode_utf8(url).len() + header_block.len() <= 0xFFFF,
    ensures
        ({
            let urlb = encode_utf8(url);
            let payload = seq![method_byte(method)] + u16_be((urlb.len() % 0x10000) as u16) + u16_be(
                (header_block.len() % 0x10000) as u16,
            ) + urlb + header_block;
            spec_decode_request_v3(payload) == Ok::<SpecPayloadV3, AkariError>(
                SpecPayloadV3::Request(SpecRequestPayload { method, url, headers: header_block }),
            )
        }),
{
    broadcast use vstd::utf8::encode_utf8_valid_utf8;
    broadcast use vstd::utf8::encode_utf8_decode_utf8;

    let urlb = encode_utf8(url);
    let payload = seq![method_byte(method)] + u16_be((urlb.len() % 0x10000) as u16) + u16_be(
        (header_block.len() % 0x10000) as u16,
    ) + urlb + header_block;
    assert(payload.len() == 5 + urlb.len() + header_block.len());
    lemma_u16_be_round_trip(urlb.len() as u16);
    lemma_u16_be_round_trip(header_block.len() as u16);
    assert(payload[0] == method_byte(method));
    assert(payload[1] == u16_be(urlb.len() as u16)[0] && payload[2] == u16_be(urlb.len() as u16)[1]);
    assert(payload[3] == u16_be(header_block.len() as u16)[0] && payload[4] == u16_be(
        header_block.len() as u16,
    )[1]);
    assert(u16_from_be(payload[1], payload[2]) == urlb.len());
    assert(u16_from_be(payload[3], payload[4]) == header_block.len());
    assert(payload.subrange(5, 5 + urlb.len() as int) =~= urlb);
    assert(payload.subrange(5 + urlb.len() as int, payload.len() as int) =~= header_block);
    assert(spec_method(payload[0]) == Some(method)) by {
        assert(spec_method(method_byte(method)) == Some(method));
    }
}

/// Round trip of a request packet: encoding a request and decoding the
/// datagram under the same PSK gives back the method, the URL and the
/// header block, for every unencrypted flag combination. A short message
/// id must fit its 16 bits.
pub proof fn lemma_request_round_trip_v3(
    method: RequestMethod,
    url: Seq<char>,
    header_block: Seq<u8>,
    message_id: u64,
    flags: u8,
    psk: Seq<u8>,
)
    requires
        flags & FLAG_ENCRYPT == 0,
        flags & FLAG_SHORT_ID != 0 ==> message_id < 0x10000,
        5 + encode_utf8(url).len() + header_block.len() <= 0xFFFF,
    ensures
        ({
            &&& spec_encode_request_v3(method, url, header_block, message_id, flags, psk) matches Ok(d)
            &&& spec_decode_packet_v3(d, psk) matches Ok(p)
            &&& p.header.packet_type == PacketTypeV3::Req
            &&& p.header.flags == flags
            &&& p.header.message_id == message_id
            &&& p.payload == SpecPayloadV3::Request(
                SpecRequestPayload { method, url, headers: header_block },
            )
        }),
{
    let urlb = encode_utf8(url);
    let payload = seq![method_byte(method)] + u16_be((urlb.len() % 0x10000) as u16) + u16_be(
        (header_block.len() % 0x10000) as u16,
    ) + urlb + header_block;
    let h = HeaderV3 {
        packet_type: PacketTypeV3::Req,
        flags,
        message_id,
        seq: 0,
        seq_total: 1,
        payload_len: (payload.len() % 0x10000) as u16,
    };
    assert(payload.len() == 5 + urlb.len() + header_block.len());
    assert(h.payload_len == payload.len());
    lemma_tagged_frame_round_trip(h, payload, psk);
    lemma_request_payload_decodes(method, url, header_block);
}

/// Round trip of a RespHead packet, for every unencrypted flag
/// combination. With FLAG_SHORT_LEN the declared body length must fit 24
/// bits.
#[verifier::rlimit(100)]
#[verifier::spinoff_prover]
pub proof fn lemma_resp_head_round_trip_v3(
    status_code: u16,
    hdr_chunk: Seq<u8>,
    body_len: u32,
    hdr_chunks: u8,
    hdr_idx: u8,
    seq_total_body: u16,
    flags: u8,
    message_id: u64,
    psk: Seq<u8>,
)
    requires
        flags & FLAG_ENCRYPT == 0,
        flags & FLAG_SHORT_ID != 0 ==> message_id < 0x10000,
        flags & FLAG_SHORT_LEN != 0 ==> body_len < 0x1000000,
        8 + hdr_chunk.len() <= 0xFFFF,
    ensures
        ({
            &&& spec_encode_resp_head_v3(
                status_code,
                hdr_chunk,
                body_len,
                hdr_chunks,
                hdr_idx,
                seq_total_body,
                flags,
                message_id,
                psk,
            ) matches Ok(d)
            &&& spec_decode_packet_v3(d, psk) matches Ok(p)
            &&& p.header.packet_type == PacketTypeV3::RespHead
            &&& p.payload matches SpecPayloadV3::RespHead(rh)
            &&& rh.status_code == status_code
            &&& rh.body_len == body_len
            &&& rh.hdr_chunks == hdr_chunks
            &&& rh.hdr_idx == hdr_idx
            &&& rh.header_block == hdr_chunk
            &&& rh.seq_total_body == seq_total_body
        }),
{
    let short = flags & FLAG_SHORT_LEN != 0;
    let len_field = if short {
        u24_be(body_len)
    } else {
        u32_be(body_len)
    };
    let payload = u16_be(status_code) + len_field + seq![hdr_chunks, hdr_idx] + hdr_chunk;
    let h = HeaderV3 {
        packet_type: PacketTypeV3::RespHead,
        flags,
        message_id,
        seq: 0,
        seq_total: seq_total_body,
        payload_len: (payload.len() % 0x10000) as u16,
    };
    assert(h.payload_len == payload.len());
    lemma_tagged_frame_round_trip(h, payload, psk);
    lemma_u16_be_round_trip(status_code);
    assert(payload[0] == u16_be(status_code)[0] && payload[1] == u16_be(status_code)[1]);
    let offset: int = if short {
        5
    } else {
        6
    };
    if short {
        lemma_u24_be_round_trip(body_len);
        assert(payload[2] == u24_be(body_len)[0] && payload[3] == u24_be(body_len)[1] && payload[4]
            == u24_be(body_len)[2]);
        assert(body_len % 0x1000000 == body_len);
    } else {
        lemma_u32_be_round_trip(body_len);
        assert(payload[2] == u32_be(body_len)[0] && payload[3] == u32_be(body_len)[1] && payload[4]
            == u32_be(body_len)[2] && payload[5] == u32_be(body_len)[3]);
    }
    assert(payload[offset] == hdr_chunks && payload[offset + 1] == hdr_idx);
    assert(payload.subrange(offset + 2, payload.len() as int) =~= hdr_chunk);
}

/// Round trip of a RespHeadCont packet, for every unencrypted flag
/// combination.
pub proof fn lemma_resp_head_cont_round_trip_v3(
    hdr_chunk: Seq<u8>,
    hdr_idx: u8,
    hdr_chunks: u8,
    flags: u8,
    message_id: u64,
    psk: Seq<u8>,
)
    requires
        flags & FLAG_ENCRYPT == 0,
        flags & FLAG_SHORT_ID != 0 ==> message_id < 0x10000,
        2 + hdr_chunk.len() <= 0xFFFF,
    ensures
        ({
            &&& spec_encode_resp_head_cont_v3(hdr_chunk, hdr_idx, hdr_chunks, flags, message_id, psk)
                matches Ok(d)
            &&& spec_decode_packet_v3(d, psk) matches Ok(p)
            &&& p.payload == (SpecPayloadV3::RespHeadCont { hdr_idx, hdr_chunks, header_block: hdr_chunk })
        }),
{
    let payload = seq![hdr_chunks, hdr_idx] + hdr_chunk;
    let h = HeaderV3 {
        packet_type: PacketTypeV3::RespHeadCont,
        flags,
        message_id,
        seq: 0,
        seq_total: 0,
        payload_len: (payload.len() % 0x10000) as u16,
    };
    assert(h.payload_len == payload.len());
    lemma_tagged_frame_round_trip(h, payload, psk);
    assert(payload.subrange(2, payload.len() as int) =~= hdr_chunk);
}

/// Round trip of a per-packet-tagged RespBody packet (no aggregate flag).
pub proof fn lemma_resp_body_round_trip_v3(
    body_chunk: Seq<u8>,
    seq: u16,
    seq_total: u16,
    flags: u8,
    message_id: u64,
    psk: Seq<u8>,
)
    requires
        flags & FLAG_ENCRYPT == 0,
        flags & FLAG_AGG_TAG == 0,
        flags & FLAG_SHORT_ID != 0 ==> message_id < 0x10000,
        body_chunk.len() <= 0xFFFF,
    ensures
        ({
            &&& spec_encode_resp_body_v3(body_chunk, seq, seq_total, flags, message_id, psk) matches Ok(d)
            &&& spec_decode_packet_v3(d, psk) matches Ok(p)
            &&& p.payload == SpecPayloadV3::RespBody(
                SpecRespBodyPayloadV3 { seq, seq_total, chunk: body_chunk, agg_tag: None },
            )
        }),
{
    let h = HeaderV3 {
        packet_type: PacketTypeV3::RespBody,
        flags,
        message_id,
        seq,
        seq_total,
        payload_len: (body_chunk.len() % 0x10000) as u16,
    };
    assert(h.payload_len == body_chunk.len());
    lemma_tagged_frame_round_trip(h, body_chunk, psk);
}

/// Round trip of an aggregate-mode RespBody packet: the final chunk carries
/// a 16-byte aggregate tag inside its payload and decodes back to the
/// chunk and that tag; earlier chunks carry none.
#[verifier::rlimit(100)]
#[verifier::spinoff_prover]
pub proof fn lemma_resp_body_agg_round_trip_v3(
    body_chunk: Seq<u8>,
    seq: u16,
    seq_total: u16,
    flags: u8,
    message_id: u64,
    psk: Seq<u8>,
    agg_tag: Option<Seq<u8>>,
)
    requires
        flags & FLAG_ENCRYPT == 0,
        flags & FLAG_AGG_TAG != 0,
        flags & FLAG_SHORT_ID != 0 ==> message_id < 0x10000,
        seq_total > 0,
        (seq == seq_total - 1) <==> agg_tag is Some,
        agg_tag matches Some(t) ==> t.len() == 16,
        body_chunk.len() + 16 <= 0xFFFF,
    ensures
        ({
            &&& spec_encode_resp_body_v3_agg(body_chunk, seq, seq_total, flags, message_id, psk, agg_tag)
                matches Ok(d)
            &&& spec_decode_packet_v3(d, psk) matches Ok(p)
            &&& p.payload == SpecPayloadV3::RespBody(
                SpecRespBodyPayloadV3 { seq, seq_total, chunk: body_chunk, agg_tag },
            )
        }),
{
    let payload = match agg_tag {
        Some(t) => body_chunk + t,
        None => body_chunk,
    };
    let h = HeaderV3 {
        packet_type: PacketTypeV3::RespBody,
        flags,
        message_id,
        seq,
        seq_total,
        payload_len: (payload.len() % 0x10000) as u16,
    };
    assert(h.payload_len == payload.len());
    lemma_agg_frame_round_trip(h, payload, psk);
    match agg_tag {
        Some(t) => {
            assert(payload.len() >= TAG_LEN);
            let split = payload.len() - TAG_LEN;
            assert(split == body_chunk.len());
            assert(payload.take(split as int) =~= body_chunk);
            assert(payload.skip(split as int) =~= t);
        },
        None => {
            assert(seq != seq_total - 1);
        },
    }
}

/// Round trip of a NACK packet (either kind), for every unencrypted flag
/// combination. The bitmap must fit the one-byte length field.
pub proof fn lemma_nack_round_trip_v3(
    packet_type: PacketTypeV3,
    bitmap: Seq<u8>,
    message_id: u64,
    flags: u8,
    psk: Seq<u8>,
)
    requires
        packet_type == PacketTypeV3::NackHead || packet_type == PacketTypeV3::NackBody,
        flags & FLAG_ENCRYPT == 0,
        flags & FLAG_SHORT_ID != 0 ==> message_id < 0x10000,
        bitmap.len() <= 0xFF,
    ensures
        ({
            &&& spec_encode_nack_v3(packet_type, bitmap, message_id, flags, psk) matches Ok(d)
            &&& spec_decode_packet_v3(d, psk) matches Ok(p)
            &&& p.payload == if packet_type == PacketTypeV3::NackHead {
                SpecPayloadV3::NackHead(bitmap)
            } else {
                SpecPayloadV3::NackBody(bitmap)
            }
        }),
{
    let payload = seq![(bitmap.len() % 0x100) as u8] + bitmap;
    let h = HeaderV3 {
        packet_type,
        flags,
        message_id,
        seq: 0,
        seq_total: 1,
        payload_len: (payload.len() % 0x10000) as u16,
    };
    assert(h.payload_len == payload.len());
    lemma_tagged_frame_round_trip(h, payload, psk);
    assert(payload[0] == bitmap.len());
    assert(payload.skip(1) =~= bitmap);
    assert(spec_decode_nack_v3(payload) == Ok::<Seq<u8>, AkariError>(bitmap));
}

/// Round trip of an Error packet, for every unencrypted flag combination.
#[verifier::rlimit(100)]
#[verifier::spinoff_prover]
pub proof fn lemma_error_round_trip_v3(
    message: Seq<char>,
    code: u8,
    http_status: u16,
    message_id: u64,
    flags: u8,
    psk: Seq<u8>,
)
    requires
        flags & FLAG_ENCRYPT == 0,
        flags & FLAG_SHORT_ID != 0 ==> message_id < 0x10000,
        3 + encode_utf8(message).len() <= 0xFFFF,
    ensures
        ({
            &&& spec_encode_error_v3(message, code, http_status, message_id, flags, psk) matches Ok(d)
            &&& spec_decode_packet_v3(d, psk) matches Ok(p)
            &&& p.payload matches SpecPayloadV3::Error(e)
            &&& e.error_code == code
            &&& e.http_status == http_status
            &&& e.message == message
        }),
{
    broadcast use vstd::utf8::encode_utf8_valid_utf8;
    broadcast use vstd::utf8::encode_utf8_decode_utf8;

    let msgb = encode_utf8(message);
    let payload = seq![code] + u16_be(http_status) + msgb;
    let h = HeaderV3 {
        packet_type: PacketTypeV3::Error,
        flags,
        message_id,
        seq: 0,
        seq_total: 1,
        payload_len: (payload.len() % 0x10000) as u16,
    };
    assert(h.payload_len == payload.len());
    lemma_tagged_frame_round_trip(h, payload, psk);
    lemma_u16_be_round_trip(http_status);
    assert(payload[1] == u16_be(http_status)[0] && payload[2] == u16_be(http_status)[1]);
    assert(payload.subrange(3, payload.len() as int) =~= msgb);
}

/// Flag exclusivity: no datagram carrying both ENCRYPT and AGG_TAG ever
/// decodes; every decoded packet has at most one of the two bits set.
pub proof fn lemma_flag_exclusivity(datagram: Seq<u8>, psk: Seq<u8>)
    ensures
        spec_decode_packet_v3(datagram, psk) matches Ok(p) ==> (p.header.flags & 0xC0) != 0xC0,
{
    if spec_decode_packet_v3(datagram, psk) matches Ok(p) {
        let h = spec_parse_header_v3(datagram).unwrap();
        assert(!(h.flags & FLAG_ENCRYPT != 0 && h.flags & FLAG_AGG_TAG != 0));
        let f = h.flags;
        assert((f & 0x80 == 0 || f & 0x40 == 0) ==> (f & 0xC0) != 0xC0) by (bit_vector);
    }
}

/// Tampered trailer: a per-packet-tagged datagram whose 16-byte trailer is
/// anything but the HMAC tag of its header and payload is rejected with
/// HmacMismatch.
pub proof fn lemma_tag_flip_rejected(h: HeaderV3, payload: Seq<u8>, tag2: Seq<u8>, psk: Seq<u8>)
    requires
        header_v3_canonical(h),
        h.flags & FLAG_ENCRYPT == 0,
        !(h.flags & FLAG_AGG_TAG != 0 && h.packet_type == PacketTypeV3::RespBody),
        payload.len() == h.payload_len,
        tag2.len() == 16,
        tag2 != tag_of(psk, spec_header_v3_bytes(h) + payload),
    ensures
        spec_decode_packet_v3(spec_header_v3_bytes(h) + payload + tag2, psk) == Err::<
            SpecParsedPacketV3,
            AkariError,
        >(AkariError::HmacMismatch),
{
    let hb = spec_header_v3_bytes(h);
    let d = hb + payload + tag2;
    let header_len = FIXED_LEN + id_len_of(h.flags);
    assert(hb.len() == header_len);
    assert(d =~= hb + (payload + tag2));
    lemma_header_v3_round_trip(h, payload + tag2);
    assert(spec_parse_header_v3(d) == Ok::<HeaderV3, AkariError>(h));
    assert(d.subrange(header_len + h.payload_len as int, d.len() as int) =~= tag2);
    assert(d.take(header_len + h.payload_len as int) =~= hb + payload);
}

/// Accumulator idempotence for chunk stores: storing the same chunk at the
/// same index twice is the same as storing it once.
pub proof fn lemma_insert_chunk_idempotent(s: Seq<Option<Seq<u8>>>, idx: int, chunk: Seq<u8>)
    requires
        idx >= 0,
    ensures
        spec_insert_chunk(spec_insert_chunk(s, idx, chunk), idx, chunk) == spec_insert_chunk(s, idx, chunk),
{
    let once = spec_insert_chunk(s, idx, chunk);
    assert(once.len() > idx);
    assert(spec_insert_chunk(once, idx, chunk) =~= once);
}

/// Accumulator idempotence: delivering the same body packet twice leaves
/// the same state — and so the same assembled result — as delivering it
/// once.
pub proof fn lemma_add_body_idempotent(
    m: AccModel,
    p: SpecRespBodyPayloadV3,
    seq_total_from_header: Option<u16>,
)
    ensures
        spec_add_body(spec_add_body(m, p, seq_total_from_header), p, seq_total_from_header) == spec_add_body(
            m,
            p,
            seq_total_from_header,
        ),
{
    lemma_insert_chunk_idempotent(m.body, p.seq as int, p.chunk);
}

/// Accumulator idempotence for the response head: delivering the same
/// RespHead packet twice leaves the same state as delivering it once.
pub proof fn lemma_add_head_idempotent(m: AccModel, p: crate::payload::SpecRespHeadPayloadV3)
    ensures
        spec_add_head(spec_add_head(m, p), p) == spec_add_head(m, p),
{
    lemma_insert_chunk_idempotent(m.hdrs, p.hdr_idx as int, p.header_block);
}

/// Accumulator idempotence for header chunks: delivering the same header
/// continuation twice leaves the same state as delivering it once.
pub proof fn lemma_add_head_cont_idempotent(m: AccModel, hdr_idx: u8, hdr_chunks: u8, block: Seq<u8>)
    ensures
        spec_add_head_cont(spec_add_head_cont(m, hdr_idx, hdr_chunks, block), hdr_idx, hdr_chunks, block)
            == spec_add_head_cont(m, hdr_idx, hdr_chunks, block),
{
    lemma_insert_chunk_idempotent(m.hdrs, hdr_idx as int, block);
}

/// Chunk stores are insensitive to arrival order: storing at two indices
/// commutes, provided a repeated index carries the same chunk.
pub proof fn lemma_insert_chunk_commutes(s: Seq<Option<Seq<u8>>>, i1: int, c1: Seq<u8>, i2: int, c2: Seq<u8>)
    requires
        i1 >= 0,
        i2 >= 0,
        i1 == i2 ==> c1 == c2,
    ensures
        spec_insert_chunk(spec_insert_chunk(s, i1, c1), i2, c2) == spec_insert_chunk(
            spec_insert_chunk(s, i2, c2),
            i1,
            c1,
        ),
{
    assert(spec_insert_chunk(spec_insert_chunk(s, i1, c1), i2, c2) =~= spec_insert_chunk(
        spec_insert_chunk(s, i2, c2),
        i1,
        c1,
    ));
}

/// Reassembly commutativity: two body packets of one response can arrive
/// in either order and leave the same accumulator state — so any
/// permutation of a response's packets, being a product of such swaps,
/// yields the same assembled body. Packets of one response agree on a
/// repeated sequence number, on the effective chunk count, and on the
/// aggregate tag.
pub proof fn lemma_add_body_commutes(
    m: AccModel,
    p1: SpecRespBodyPayloadV3,
    st1: Option<u16>,
    p2: SpecRespBodyPayloadV3,
    st2: Option<u16>,
)
    requires
        p1.seq == p2.seq ==> p1.chunk == p2.chunk,
        st1 is Some && st2 is Some,
        (if p1.seq_total > 0 {
            Some(p1.seq_total)
        } else {
            st1
        }) == (if p2.seq_total > 0 {
            Some(p2.seq_total)
        } else {
            st2
        }),
        p1.agg_tag is Some && p2.agg_tag is Some ==> p1.agg_tag == p2.agg_tag,
    ensures
        spec_add_body(spec_add_body(m, p1, st1), p2, st2) == spec_add_body(spec_add_body(m, p2, st2), p1, st1),
{
    lemma_insert_chunk_commutes(m.body, p1.seq as int, p1.chunk, p2.seq as int, p2.chunk);
}

/// Header-chunk commutativity: two header continuations of one response
/// can arrive in either order and leave the same accumulator state.
pub proof fn lemma_add_head_cont_commutes(
    m: AccModel,
    idx1: u8,
    total1: u8,
    block1: Seq<u8>,
    idx2: u8,
    total2: u8,
    block2: Seq<u8>,
)
    requires
        idx1 == idx2 ==> block1 == block2,
        total1 == total2,
    ensures
        spec_add_head_cont(spec_add_head_cont(m, idx1, total1, block1), idx2, total2, block2)
            == spec_add_head_cont(spec_add_head_cont(m, idx2, total2, block2), idx1, total1, block1),
{
    lemma_insert_chunk_commutes(m.hdrs, idx1 as int, block1, idx2 as int, block2);
}

/// Folding a sequence of events into a state, one at a time.
pub open spec fn spec_fold_events<S, E>(m: S, ps: Seq<E>, op: spec_fn(S, E) -> S) -> S
    decreases ps.len(),
{
    if ps.len() == 0 {
        m
    } else {
        op(spec_fold_events(m, ps.drop_last(), op), ps.last())
    }
}

/// Two events applied to a state in either order reach the same state.
pub open spec fn commute_at<S, E>(op: spec_fn(S, E) -> S, s: S, ps: Seq<E>, i: int, j: int) -> bool {
    op(op(s, ps[i]), ps[j]) == op(op(s, ps[j]), ps[i])
}

/// Every pair of events in the sequence can be applied in either order.
pub open spec fn events_commute<S, E>(ps: Seq<E>, op: spec_fn(S, E) -> S) -> bool {
    forall|s: S, i: int, j: int|
        0 <= i < ps.len() && 0 <= j < ps.len() ==> #[trigger] commute_at(op, s, ps, i, j)
}

/// Any event of a pairwise-commuting sequence can be pulled out and applied
/// last.
proof fn lemma_fold_extract<S, E>(m: S, ps: Seq<E>, op: spec_fn(S, E) -> S, k: int)
    requires
        events_commute(ps, op),
        0 <= k < ps.len(),
    ensures
        spec_fold_events(m, ps, op) == op(spec_fold_events(m, ps.remove(k), op), ps[k]),
    decreases ps.len(),
{
    if k == ps.len() - 1 {
        assert(ps.remove(k) =~= ps.drop_last());
    } else {
        let front = ps.drop_last();
        let y = ps.last();
        assert(events_commute(front, op)) by {
            assert forall|s: S, i: int, j: int|
                0 <= i < front.len() && 0 <= j < front.len() implies #[trigger] commute_at(
                op,
                s,
                front,
                i,
                j,
            ) by {
                assert(front[i] == ps[i] && front[j] == ps[j]);
                assert(commute_at(op, s, ps, i, j));
            }
        }
        lemma_fold_extract(m, front, op, k);
        // fold(ps) = op(fold(front), y)
        //          = op(op(fold(front.remove(k)), front[k]), y)
        //          = op(op(fold(front.remove(k)), y), front[k])   by commutation
        //          = op(fold(front.remove(k) + [y]), front[k])
        let base = spec_fold_events(m, front.remove(k), op);
        assert(commute_at(op, base, ps, k, ps.len() - 1));
        assert(op(op(base, ps[k]), y) == op(op(base, y), ps[k]));
        assert(ps.remove(k) =~= front.remove(k) + seq![y]);
        assert((front.remove(k) + seq![y]).drop_last() =~= front.remove(k));
        assert((front.remove(k) + seq![y]).last() == y);
        assert(spec_fold_events(m, ps.remove(k), op) == op(base, y));
    }
}

/// Folding pairwise-commuting events is insensitive to their order: two
/// sequences holding the same multiset of events fold to the same state.
proof fn lemma_fold_permutation<S, E>(m: S, ps1: Seq<E>, ps2: Seq<E>, op: spec_fn(S, E) -> S)
    requires
        events_commute(ps1, op),
        ps1.to_multiset() == ps2.to_multiset(),
    ensures
        spec_fold_events(m, ps1, op) == spec_fold_events(m, ps2, op),
    decreases ps2.len(),
{
    broadcast use vstd::seq_lib::group_to_multiset_ensures;

    if ps2.len() == 0 {
        assert(ps1.to_multiset().len() == 0);
        assert(ps1.len() == 0);
    } else {
        let x = ps2.last();
        let front2 = ps2.drop_last();
        assert(ps2.contains(x));
        assert(ps2.to_multiset().count(x) > 0);
        assert(ps1.to_multiset().count(x) > 0);
        assert(ps1.contains(x));
        let k = choose|k: int| 0 <= k < ps1.len() && ps1[k] == x;
        lemma_fold_extract(m, ps1, op, k);
        assert(ps1.remove(k).to_multiset() =~= ps1.to_multiset().remove(x));
        assert(ps2.remove(ps2.len() - 1) =~= front2);
        assert(front2.to_multiset() =~= ps2.to_multiset().remove(x));
        assert(events_commute(ps1.remove(k), op)) by {
            let rest = ps1.remove(k);
            assert forall|s: S, i: int, j: int|
                0 <= i < rest.len() && 0 <= j < rest.len() implies #[trigger] commute_at(
                op,
                s,
                rest,
                i,
                j,
            ) by {
                let i1 = if i < k {
                    i
                } else {
                    i + 1
                };
                let j1 = if j < k {
                    j
                } else {
                    j + 1
                };
                assert(rest[i] == ps1[i1] && rest[j] == ps1[j1]);
                assert(commute_at(op, s, ps1, i1, j1));
            }
        }
        lemma_fold_permutation(m, ps1.remove(k), front2, op);
        assert(spec_fold_events(m, ps2, op) == op(spec_fold_events(m, front2, op), x));
    }
}

/// The accumulator update one body packet performs, as an event operator:
/// the packet together with the seq_total its header carried.
pub open spec fn body_event_op() -> spec_fn(AccModel, (SpecRespBodyPayloadV3, Option<u16>)) -> AccModel {
    |m: AccModel, e: (SpecRespBodyPayloadV3, Option<u16>)| spec_add_body(m, e.0, e.1)
}

/// The body packets of one response are mutually consistent: a repeated
/// sequence number carries the same chunk, every packet agrees on the
/// effective chunk count, and at most one aggregate tag value occurs.
pub open spec fn body_packets_consistent(ps: Seq<(SpecRespBodyPayloadV3, Option<u16>)>) -> bool {
    forall|i: int, j: int|
        0 <= i < ps.len() && 0 <= j < ps.len() ==> {
            let a = #[trigger] ps[i];
            let b = #[trigger] ps[j];
            &&& (a.0.seq == b.0.seq ==> a.0.chunk == b.0.chunk)
            &&& a.1 is Some
            &&& (if a.0.seq_total > 0 {
                Some(a.0.seq_total)
            } else {
                a.1
            }) == (if b.0.seq_total > 0 {
                Some(b.0.seq_total)
            } else {
                b.1
            })
            &&& (a.0.agg_tag is Some && b.0.agg_tag is Some ==> a.0.agg_tag == b.0.agg_tag)
        }
}

/// Reassembly commutativity: delivering the body packets of one response in
/// any order leaves the same accumulator state, and so the same assembled
/// body — two delivery orders with the same multiset of packets agree.
pub proof fn lemma_body_packets_permutation(
    m: AccModel,
    ps1: Seq<(SpecRespBodyPayloadV3, Option<u16>)>,
    ps2: Seq<(SpecRespBodyPayloadV3, Option<u16>)>,
)
    requires
        body_packets_consistent(ps1),
        ps1.to_multiset() == ps2.to_multiset(),
    ensures
        spec_fold_events(m, ps1, body_event_op()) == spec_fold_events(m, ps2, body_event_op()),
{
    let op = body_event_op();
    assert forall|s: AccModel, i: int, j: int|
        0 <= i < ps1.len() && 0 <= j < ps1.len() implies #[trigger] commute_at(op, s, ps1, i, j) by {
        let a = ps1[i];
        let b = ps1[j];
        lemma_add_body_commutes(s, a.0, a.1, b.0, b.1);
    }
    lemma_fold_permutation(m, ps1, ps2, op);
}

/// The accumulator update one header continuation performs, as an event
/// operator: (hdr_idx, hdr_chunks, chunk bytes).
pub open spec fn head_event_op() -> spec_fn(AccModel, (u8, u8, Seq<u8>)) -> AccModel {
    |m: AccModel, e: (u8, u8, Seq<u8>)| spec_add_head_cont(m, e.0, e.1, e.2)
}

/// The header chunks of one response are mutually consistent: a repeated
/// index carries the same bytes, and every packet agrees on the chunk
/// count.
pub open spec fn head_chunks_consistent(ps: Seq<(u8, u8, Seq<u8>)>) -> bool {
    forall|i: int, j: int|
        0 <= i < ps.len() && 0 <= j < ps.len() ==> {
            let a = #[trigger] ps[i];
            let b = #[trigger] ps[j];
            &&& (a.0 == b.0 ==> a.2 == b.2)
            &&& a.1 == b.1
        }
}

/// Header reassembly commutativity: delivering the header chunks of one
/// response in any order leaves the same accumulator state, and so the same
/// assembled header block.
pub proof fn lemma_head_chunks_permutation(m: AccModel, ps1: Seq<(u8, u8, Seq<u8>)>, ps2: Seq<(u8, u8, Seq<u8>)>)
    requires
        head_chunks_consistent(ps1),
        ps1.to_multiset() == ps2.to_multiset(),
    ensures
        spec_fold_events(m, ps1, head_event_op()) == spec_fold_events(m, ps2, head_event_op()),
{
    let op = head_event_op();
    assert forall|s: AccModel, i: int, j: int|
        0 <= i < ps1.len() && 0 <= j < ps1.len() implies #[trigger] commute_at(op, s, ps1, i, j) by {
        let a = ps1[i];
        let b = ps1[j];
        lemma_add_head_cont_commutes(s, a.0, a.1, a.2, b.0, b.1, b.2);
    }
    lemma_fold_permutation(m, ps1, ps2, op);
}


/// Aggregate integrity, sender side: for every body, the final body packet
/// the responder builds carries exactly HMAC-SHA256(PSK, body) truncated to
/// 16 bytes as its aggregate tag, and decodes back to the final chunk and
/// that tag.
pub proof fn lemma_aggregate_tag_on_final(
    body: Seq<u8>,
    payload_max: int,
    flags: u8,
    message_id: u64,
    psk: Seq<u8>,
)
    requires
        1 <= payload_max <= 0xFF00,
        flags & FLAG_ENCRYPT == 0,
        flags & FLAG_AGG_TAG != 0,
        flags & FLAG_SHORT_ID != 0 ==> message_id < 0x10000,
        body.len() > 0,
        crate::responder::spec_chunks(body, payload_max).len() <= 0xFFFF,
    ensures
        ({
            let bchunks = crate::responder::spec_chunks(body, payload_max);
            let last = bchunks.len() - 1;
            let d = crate::responder::spec_body_packet(body, payload_max, last, flags, message_id, psk);
            &&& spec_decode_packet_v3(d, psk) matches Ok(p)
            &&& p.payload == SpecPayloadV3::RespBody(
                SpecRespBodyPayloadV3 {
                    seq: last as u16,
                    seq_total: bchunks.len() as u16,
                    chunk: bchunks[last],
                    agg_tag: Some(tag_of(psk, body)),
                },
            )
        }),
{
    let bchunks = crate::responder::spec_chunks(body, payload_max);
    let last = bchunks.len() - 1;
    assert(bchunks.len() > 0);
    crate::responder::lemma_chunks_bounded(body, payload_max);
    assert(bchunks[last].len() <= payload_max);
    lemma_tag_of_len(psk, body);
    lemma_resp_body_agg_round_trip_v3(
        bchunks[last],
        last as u16,
        bchunks.len() as u16,
        flags,
        message_id,
        psk,
        Some(tag_of(psk, body)),
    );
}

/// The body-packet events of one response delivered in ascending order:
/// chunk `i` under sequence number `i`, each declaring the same total.
pub open spec fn chunk_events(chunks: Seq<Seq<u8>>, st: u16) -> Seq<(SpecRespBodyPayloadV3, Option<u16>)> {
    Seq::new(
        chunks.len(),
        |i: int|
            (
                SpecRespBodyPayloadV3 { seq: i as u16, seq_total: st, chunk: chunks[i], agg_tag: None },
                Some(st),
            ),
    )
}

/// A chunk list stored completely, every slot filled.
pub open spec fn all_some(chunks: Seq<Seq<u8>>) -> Seq<Option<Seq<u8>>> {
    chunks.map_values(|c: Seq<u8>| Some(c))
}

/// A fully filled store holds as many chunks as slots.
proof fn lemma_count_some_all(chunks: Seq<Seq<u8>>)
    ensures
        crate::client::count_some(all_some(chunks)) == chunks.len(),
    decreases chunks.len(),
{
    if chunks.len() > 0 {
        lemma_count_some_all(chunks.drop_last());
        assert(all_some(chunks).drop_last() =~= all_some(chunks.drop_last()));
        assert(all_some(chunks).last() == Some(chunks.last()));
    }
}

/// Concatenation distributes over appending a chunk.
proof fn lemma_concat_push(s: Seq<Seq<u8>>, x: Seq<u8>)
    ensures
        crate::responder::concat_chunk_seq(s.push(x)) == crate::responder::concat_chunk_seq(s) + x,
    decreases s.len(),
{
    if s.len() == 0 {
        assert(s.push(x).drop_first() =~= Seq::<Seq<u8>>::empty());
        assert(s.push(x)[0] == x);
        assert(crate::responder::concat_chunk_seq(s.push(x)) == x + crate::responder::concat_chunk_seq(
            Seq::<Seq<u8>>::empty(),
        ));
        assert(crate::responder::concat_chunk_seq(s.push(x)) =~= x);
        assert(crate::responder::concat_chunk_seq(s) + x =~= x);
    } else {
        lemma_concat_push(s.drop_first(), x);
        assert(s.push(x).drop_first() =~= s.drop_first().push(x));
        assert(s.push(x)[0] == s[0]);
        assert(crate::responder::concat_chunk_seq(s.push(x)) =~= crate::responder::concat_chunk_seq(s) + x);
    }
}

/// Assembling a fully filled store concatenates its chunks in order.
proof fn lemma_assemble_all_some(chunks: Seq<Seq<u8>>)
    ensures
        spec_assemble_chunks(all_some(chunks)) == crate::responder::concat_chunk_seq(chunks),
    decreases chunks.len(),
{
    if chunks.len() == 0 {
        assert(spec_assemble_chunks(all_some(chunks)) =~= crate::responder::concat_chunk_seq(chunks));
    } else {
        lemma_assemble_all_some(chunks.drop_last());
        assert(all_some(chunks).drop_last() =~= all_some(chunks.drop_last()));
        assert(all_some(chunks).last() == Some(chunks.last()));
        assert(chunks.drop_last().push(chunks.last()) =~= chunks);
        lemma_concat_push(chunks.drop_last(), chunks.last());
    }
}

/// In-order fill: delivering chunks in ascending order, each declaring
/// total `st`, fills exactly their slots.
proof fn lemma_in_order_reassembly(m0: AccModel, chunks: Seq<Seq<u8>>, st: u16)
    requires
        m0.body.len() == 0,
        chunks.len() <= 0xFFFF,
        st > 0,
    ensures
        ({
            let m = spec_fold_events(m0, chunk_events(chunks, st), body_event_op());
            &&& m.body == all_some(chunks)
            &&& chunks.len() > 0 ==> m.body_total == Some(st)
            &&& chunks.len() == 0 ==> m == m0
        }),
    decreases chunks.len(),
{
    let ps = chunk_events(chunks, st);
    if chunks.len() == 0 {
        assert(ps.len() == 0);
        assert(all_some(chunks) =~= m0.body);
    } else {
        let front = chunks.drop_last();
        assert(ps.drop_last() =~= chunk_events(front, st));
        lemma_in_order_reassembly(m0, front, st);
        let m1 = spec_fold_events(m0, chunk_events(front, st), body_event_op());
        let m = spec_fold_events(m0, ps, body_event_op());
        assert(body_event_op()(m1, ps.last()) == spec_add_body(m1, ps.last().0, ps.last().1));
        assert(m == spec_add_body(m1, ps.last().0, ps.last().1));
        assert(m.body =~= all_some(chunks)) by {
            assert(ps.last().0.seq == chunks.len() - 1);
            assert(m1.body.len() == chunks.len() - 1);
        }
    }
}

/// Reassembly correctness: delivering the body chunks of one response — in
/// any order, duplicates included — to a fresh accumulator completes the
/// body and assembles exactly the bytes the responder split. Together with
/// the chunking identity this closes the loop from sender body to
/// reassembled body.
pub proof fn lemma_body_reassembly(body: Seq<u8>, payload_max: int, message_id: u64, order: Seq<(
    SpecRespBodyPayloadV3,
    Option<u16>,
)>)
    requires
        payload_max >= 1,
        body.len() > 0,
        crate::responder::spec_chunks(body, payload_max).len() <= 0xFFFF,
        order.to_multiset() == chunk_events(
            crate::responder::spec_chunks(body, payload_max),
            crate::responder::spec_chunks(body, payload_max).len() as u16,
        ).to_multiset(),
    ensures
        ({
            let m = spec_fold_events(
                crate::client::spec_new_acc(message_id),
                order,
                body_event_op(),
            );
            &&& spec_body_complete(m)
            &&& spec_assemble_chunks(m.body) == body
        }),
{
    let chunks = crate::responder::spec_chunks(body, payload_max);
    let st = chunks.len() as u16;
    let ps = chunk_events(chunks, st);
    let m0 = crate::client::spec_new_acc(message_id);
    assert(body_packets_consistent(ps)) by {
        assert forall|i: int, j: int| 0 <= i < ps.len() && 0 <= j < ps.len() implies {
            let a = #[trigger] ps[i];
            let b = #[trigger] ps[j];
            &&& (a.0.seq == b.0.seq ==> a.0.chunk == b.0.chunk)
            &&& a.1 is Some
            &&& (if a.0.seq_total > 0 {
                Some(a.0.seq_total)
            } else {
                a.1
            }) == (if b.0.seq_total > 0 {
                Some(b.0.seq_total)
            } else {
                b.1
            })
            &&& (a.0.agg_tag is Some && b.0.agg_tag is Some ==> a.0.agg_tag == b.0.agg_tag)
        } by {
            if ps[i].0.seq == ps[j].0.seq {
                assert(i as u16 == j as u16);
                assert(i == j);
            }
        }
    }
    lemma_body_packets_permutation(m0, ps, order);
    lemma_in_order_reassembly(m0, chunks, st);
    let m = spec_fold_events(m0, ps, body_event_op());
    lemma_count_some_all(chunks);
    lemma_assemble_all_some(chunks);
    crate::responder::lemma_chunks_concat(body, payload_max);
}

/// The header-chunk events of one response delivered in ascending order:
/// chunk `i` under index `i`, each declaring the same chunk count.
pub open spec fn head_events(chunks: Seq<Seq<u8>>, total: u8) -> Seq<(u8, u8, Seq<u8>)> {
    Seq::new(chunks.len(), |i: int| (i as u8, total, chunks[i]))
}

/// In-order fill for header chunks.
proof fn lemma_head_in_order_reassembly(m0: AccModel, chunks: Seq<Seq<u8>>, total: u8)
    requires
        m0.hdrs.len() == 0,
        chunks.len() <= 0xFF,
    ensures
        ({
            let m = spec_fold_events(m0, head_events(chunks, total), head_event_op());
            &&& m.hdrs == all_some(chunks)
            &&& chunks.len() > 0 ==> m.hdr_total == Some(total)
            &&& chunks.len() == 0 ==> m == m0
        }),
    decreases chunks.len(),
{
    let ps = head_events(chunks, total);
    if chunks.len() == 0 {
        assert(ps.len() == 0);
        assert(all_some(chunks) =~= m0.hdrs);
    } else {
        let front = chunks.drop_last();
        assert(ps.drop_last() =~= head_events(front, total));
        lemma_head_in_order_reassembly(m0, front, total);
        let m1 = spec_fold_events(m0, head_events(front, total), head_event_op());
        let m = spec_fold_events(m0, ps, head_event_op());
        assert(head_event_op()(m1, ps.last()) == spec_add_head_cont(m1, ps.last().0, ps.last().1, ps.last().2));
        assert(m == spec_add_head_cont(m1, ps.last().0, ps.last().1, ps.last().2));
        assert(m.hdrs =~= all_some(chunks)) by {
            assert(ps.last().0 == chunks.len() - 1);
            assert(m1.hdrs.len() == chunks.len() - 1);
        }
    }
}

/// Header reassembly correctness: delivering the header-block fragments of
/// one response — in any order, duplicates included — to a fresh
/// accumulator completes the headers and reassembles exactly the block the
/// responder split.
pub proof fn lemma_header_reassembly(block: Seq<u8>, payload_max: int, message_id: u64, order: Seq<(
    u8,
    u8,
    Seq<u8>,
)>)
    requires
        payload_max >= 1,
        block.len() > 0,
        crate::responder::spec_chunks(block, payload_max).len() <= 0xFF,
        order.to_multiset() == head_events(
            crate::responder::spec_chunks(block, payload_max),
            crate::responder::spec_chunks(block, payload_max).len() as u8,
        ).to_multiset(),
    ensures
        ({
            let m = spec_fold_events(
                crate::client::spec_new_acc(message_id),
                order,
                head_event_op(),
            );
            &&& crate::client::spec_header_complete(m)
            &&& spec_assemble_chunks(m.hdrs) == block
        }),
{
    let chunks = crate::responder::spec_chunks(block, payload_max);
    let total = chunks.len() as u8;
    let ps = head_events(chunks, total);
    let m0 = crate::client::spec_new_acc(message_id);
    assert(head_chunks_consistent(ps)) by {
        assert forall|i: int, j: int| 0 <= i < ps.len() && 0 <= j < ps.len() implies {
            let a = #[trigger] ps[i];
            let b = #[trigger] ps[j];
            &&& (a.0 == b.0 ==> a.2 == b.2)
            &&& a.1 == b.1
        } by {
            if ps[i].0 == ps[j].0 {
                assert(i as u8 == j as u8);
                assert(i == j);
            }
        }
    }
    lemma_head_chunks_permutation(m0, ps, order);
    lemma_head_in_order_reassembly(m0, chunks, total);
    lemma_count_some_all(chunks);
    lemma_assemble_all_some(chunks);
    crate::responder::lemma_chunks_concat(block, payload_max);
}

} // verus!
