//! Round trips, flag handling and error taxonomy for the v3 packet format.

use akari_udp_core::{
    decode_packet_v3, encode_error_v3, encode_nack_body_v3, encode_request_v3, encode_resp_body_v3,
    encode_resp_body_v3_agg, encode_resp_head_cont_v3, encode_resp_head_v3, max_body_chunk_len, AkariError,
    HeaderV3, PacketTypeV3, PayloadV3, RequestMethod, FLAG_AGG_TAG, FLAG_ENCRYPT, FLAG_SHORT_ID,
    FLAG_SHORT_LEN,
};
use hmac::Mac;

const PSK: &[u8] = b"test-psk-0000-test";

fn build_headers(count: usize) -> Vec<u8> {
    let mut buf = Vec::new();
    for i in 0..count {
        buf.push(0);
        buf.push(3);
        buf.extend_from_slice(b"key");
        let val = format!("v{}", i);
        buf.extend_from_slice(&(val.len() as u16).to_be_bytes());
        buf.extend_from_slice(val.as_bytes());
    }
    buf
}

fn hmac_sha256_tag(body: &[u8]) -> Vec<u8> {
    let mut mac = hmac::Hmac::<sha2::Sha256>::new_from_slice(PSK).unwrap();
    mac.update(body);
    mac.finalize().into_bytes()[..16].to_vec()
}

#[test]
fn v3_request_round_trip_short_id() {
    let message_id = 0x1234;
    let flags = FLAG_SHORT_ID;
    let url = "https://example.com/api";
    let hdr = b"\x01\x03abc";
    let dg = encode_request_v3(RequestMethod::Get, url, hdr, message_id, 0x55667788, flags, PSK)
        .expect("encode");
    let parsed = decode_packet_v3(&dg, PSK).expect("decode");
    assert_eq!(parsed.header.packet_type, PacketTypeV3::Req);
    assert_eq!(parsed.header.flags & FLAG_SHORT_ID, FLAG_SHORT_ID);
    match parsed.payload {
        PayloadV3::Request(req) => {
            assert_eq!(req.url, url);
            assert_eq!(req.headers, hdr);
        }
        _ => panic!("unexpected payload"),
    }
}

#[test]
fn v3_response_head_short_len_and_split() {
    let flags = FLAG_SHORT_LEN;
    let headers = build_headers(10);
    let body_len = 0x00FF_F0;
    let seq_total_body = 5;
    let head0 = encode_resp_head_v3(
        200,
        headers.len(),
        &headers[..16],
        body_len,
        3,
        0,
        seq_total_body,
        flags,
        0x55,
        PSK,
    )
    .expect("encode head");
    let head1 = encode_resp_head_cont_v3(&headers[16..32], 1, 3, flags, 0x55, PSK).expect("encode head cont");
    let head2 = encode_resp_head_cont_v3(&headers[32..], 2, 3, flags, 0x55, PSK).expect("encode head cont");

    for dg in [&head0, &head1, &head2] {
        let parsed = decode_packet_v3(dg, PSK).expect("decode");
        match parsed.payload {
            PayloadV3::RespHead(h) => {
                assert_eq!(h.status_code, 200);
                assert_eq!(h.body_len, body_len);
                assert_eq!(h.hdr_chunks, 3);
                assert_eq!(h.hdr_idx, 0);
            }
            PayloadV3::RespHeadCont { hdr_idx, hdr_chunks, header_block } => {
                assert!(matches!(hdr_idx, 1 | 2));
                assert_eq!(hdr_chunks, 3);
                assert!(!header_block.is_empty());
            }
            _ => panic!("unexpected payload"),
        }
    }
}

#[test]
fn v3_response_body_agg_tag_last_chunk() {
    let flags = FLAG_AGG_TAG;
    let body_chunks = [b"hello".as_ref(), b"world".as_ref()];
    let agg_tag = hmac_sha256_tag(&body_chunks.concat());

    let b0 = encode_resp_body_v3_agg(body_chunks[0], 0, 2, flags, 0xAA, PSK, None).expect("encode body0");
    let b1 = encode_resp_body_v3_agg(body_chunks[1], 1, 2, flags, 0xAA, PSK, Some(&agg_tag))
        .expect("encode body1");

    let p0 = decode_packet_v3(&b0, PSK).expect("decode body0");
    let p1 = decode_packet_v3(&b1, PSK).expect("decode body1");

    match p0.payload {
        PayloadV3::RespBody(b) => {
            assert_eq!(b.seq, 0);
            assert_eq!(b.agg_tag, None);
        }
        _ => panic!("unexpected payload"),
    }
    match p1.payload {
        PayloadV3::RespBody(b) => {
            assert_eq!(b.seq, 1);
            assert_eq!(b.agg_tag.as_deref(), Some(agg_tag.as_slice()));
        }
        _ => panic!("unexpected payload"),
    }
}

#[test]
fn v3_response_body_per_packet_tag_when_encrypted() {
    let flags = FLAG_ENCRYPT;
    let chunk = b"encrypted-body";
    let dg = encode_resp_body_v3(chunk, 0, 1, flags, 0x66, PSK).expect("encode");
    let parsed = decode_packet_v3(&dg, PSK).expect("decode");
    match parsed.payload {
        PayloadV3::RespBody(b) => assert_eq!(b.chunk, chunk),
        _ => panic!("unexpected payload"),
    }
}

#[test]
fn v3_encrypted_payload_is_not_plaintext_on_wire() {
    let chunk = b"very-secret-body-bytes";
    let dg = encode_resp_body_v3(chunk, 0, 1, FLAG_ENCRYPT, 0x66, PSK).expect("encode");
    let header_len = HeaderV3::from_bytes(&dg).unwrap().encoded_len();
    let wire_payload = &dg[header_len..header_len + chunk.len()];
    assert_ne!(wire_payload, chunk.as_slice());
}

#[test]
fn v3_encrypt_and_agg_rejected() {
    // A well-formed datagram whose flags carry both ENCRYPT and AGG_TAG must
    // be refused at decode, whatever else it holds.
    let flags = FLAG_ENCRYPT | FLAG_AGG_TAG;
    let dg = encode_resp_body_v3_agg(b"data", 0, 1, flags, 0x1, PSK, None).expect("encode");
    let err = decode_packet_v3(&dg, PSK).unwrap_err();
    assert!(matches!(err, AkariError::UnsupportedFlagCombination));
}

#[test]
fn v3_error_round_trip() {
    let dg = encode_error_v3("bad gateway", 1, 502, 0x77, 0, PSK).expect("encode");
    let parsed = decode_packet_v3(&dg, PSK).expect("decode");
    match parsed.payload {
        PayloadV3::Error(e) => {
            assert_eq!(e.error_code, 1);
            assert_eq!(e.http_status, 502);
            assert_eq!(e.message, "bad gateway");
        }
        _ => panic!("unexpected payload"),
    }
}

#[test]
fn v3_bad_magic_rejected() {
    let mut dg = encode_request_v3(RequestMethod::Get, "https://x/", &[], 1, 0, 0, PSK).unwrap();
    dg[0] = b'Z';
    assert!(matches!(decode_packet_v3(&dg, PSK).unwrap_err(), AkariError::InvalidMagic(_)));
}

#[test]
fn v3_bad_version_rejected() {
    let mut dg = encode_request_v3(RequestMethod::Get, "https://x/", &[], 1, 0, 0, PSK).unwrap();
    dg[2] = 0x04;
    assert!(matches!(decode_packet_v3(&dg, PSK).unwrap_err(), AkariError::UnsupportedVersion(4)));
}

#[test]
fn v3_unknown_type_rejected() {
    let mut dg = encode_request_v3(RequestMethod::Get, "https://x/", &[], 1, 0, 0, PSK).unwrap();
    dg[3] = 9;
    assert!(matches!(decode_packet_v3(&dg, PSK).unwrap_err(), AkariError::UnknownMessageType(9)));
}

#[test]
fn v3_truncated_rejected() {
    let err = decode_packet_v3(&[0x41, 0x4B, 0x03], PSK).unwrap_err();
    assert!(matches!(err, AkariError::InvalidPacketLength { expected: 12, actual: 3 }));
}

#[test]
fn v3_flipped_tag_rejected() {
    let mut dg = encode_request_v3(RequestMethod::Get, "https://example.com/", &[], 5, 0, 0, PSK).unwrap();
    let n = dg.len();
    dg[n - 1] ^= 0x01;
    assert!(matches!(decode_packet_v3(&dg, PSK).unwrap_err(), AkariError::HmacMismatch));
}

#[test]
fn v3_flipped_payload_rejected() {
    let mut dg = encode_request_v3(RequestMethod::Get, "https://example.com/", &[], 5, 0, 0, PSK).unwrap();
    // Flip a bit inside the payload region (after the 20-byte full-id header).
    dg[21] ^= 0x80;
    assert!(matches!(decode_packet_v3(&dg, PSK).unwrap_err(), AkariError::HmacMismatch));
}

#[test]
fn v3_flipped_header_rejected() {
    let mut dg = encode_request_v3(RequestMethod::Get, "https://example.com/", &[], 5, 0, 0, PSK).unwrap();
    // Flip a bit of the message id inside the header.
    dg[7] ^= 0x01;
    assert!(matches!(decode_packet_v3(&dg, PSK).unwrap_err(), AkariError::HmacMismatch));
}

#[test]
fn v3_flipped_encrypted_payload_rejected() {
    let mut dg = encode_resp_body_v3(b"secret", 0, 1, FLAG_ENCRYPT, 0x9, PSK).unwrap();
    let header_len = HeaderV3::from_bytes(&dg).unwrap().encoded_len();
    dg[header_len] ^= 0x40;
    assert!(matches!(decode_packet_v3(&dg, PSK).unwrap_err(), AkariError::AeadFailed));
}

#[test]
fn v3_bad_method_rejected() {
    // method byte 3 names no request method
    let mut payload = vec![3u8, 0, 1, 0, 0, b'x'];
    let dg = raw_tagged_packet(PacketTypeV3::Req, 0, 0x1, &mut payload);
    assert!(matches!(decode_packet_v3(&dg, PSK).unwrap_err(), AkariError::UnsupportedMethod(3)));
}

#[test]
fn v3_invalid_utf8_url_rejected() {
    let mut payload = vec![0u8, 0, 1, 0, 0, 0xFF];
    let dg = raw_tagged_packet(PacketTypeV3::Req, 0, 0x1, &mut payload);
    assert!(matches!(decode_packet_v3(&dg, PSK).unwrap_err(), AkariError::InvalidUtf8));
}

#[test]
fn v3_nack_length_mismatch_rejected() {
    // declares a 3-byte bitmap but carries 1
    let mut payload = vec![3u8, 0x04];
    let dg = raw_tagged_packet(PacketTypeV3::NackBody, 0, 0x1, &mut payload);
    assert!(matches!(
        decode_packet_v3(&dg, PSK).unwrap_err(),
        AkariError::InvalidPacketLength { expected: 4, actual: 2 }
    ));
}

#[test]
fn v3_short_error_payload_rejected() {
    let mut payload = vec![1u8, 0];
    let dg = raw_tagged_packet(PacketTypeV3::Error, 0, 0x1, &mut payload);
    assert!(matches!(decode_packet_v3(&dg, PSK).unwrap_err(), AkariError::MissingPayload));
}

#[test]
fn v3_long_psk_is_digested() {
    // A PSK other than 32 bytes runs through SHA-256 key derivation and the
    // packet still round-trips under the same PSK.
    let long_psk = b"a-much-longer-pre-shared-key-than-thirty-two-bytes";
    let dg = encode_resp_body_v3(b"data", 0, 1, FLAG_ENCRYPT, 0x3, long_psk).expect("encode");
    let parsed = decode_packet_v3(&dg, long_psk).expect("decode");
    match parsed.payload {
        PayloadV3::RespBody(b) => assert_eq!(b.chunk, b"data"),
        _ => panic!("unexpected payload"),
    }
    assert!(decode_packet_v3(&dg, PSK).is_err());
}

#[test]
fn max_body_chunk_len_subtracts_header_and_tag() {
    assert_eq!(max_body_chunk_len(1500, 20), 1464);
    assert_eq!(max_body_chunk_len(10, 20), 0);
}

/// Build a tagged v3 datagram around a raw payload, for payloads the
/// encoders would not produce.
fn raw_tagged_packet(packet_type: PacketTypeV3, flags: u8, message_id: u64, payload: &mut Vec<u8>) -> Vec<u8> {
    let header = HeaderV3 {
        packet_type,
        flags,
        message_id,
        seq: 0,
        seq_total: 1,
        payload_len: payload.len() as u16,
    };
    let mut dg = header.to_bytes();
    dg.append(payload);
    let tag = akari_udp_core::compute_tag(PSK, &dg).unwrap();
    dg.extend_from_slice(&tag);
    dg
}

#[test]
fn aead_payload_round_trip_v3() {
    let header = HeaderV3 {
        packet_type: PacketTypeV3::RespBody,
        flags: FLAG_ENCRYPT,
        message_id: 0xBEEF,
        seq: 2,
        seq_total: 4,
        payload_len: 5,
    };
    let aad = header.to_bytes();
    let (ciphertext, tag) = akari_udp_core::encrypt_payload_v3(PSK, &header, b"hello", &aad).expect("seal");
    assert_eq!(ciphertext.len(), 5);
    assert_eq!(tag.len(), 16);
    assert_ne!(ciphertext.as_slice(), b"hello".as_slice());
    let plain = akari_udp_core::decrypt_payload_v3(PSK, &header, &ciphertext, &tag, &aad).expect("open");
    assert_eq!(plain, b"hello");

    // a flipped ciphertext byte no longer opens
    let mut bad = ciphertext.clone();
    bad[0] ^= 1;
    assert!(matches!(
        akari_udp_core::decrypt_payload_v3(PSK, &header, &bad, &tag, &aad).unwrap_err(),
        AkariError::AeadFailed
    ));
}

#[test]
fn v3_largest_payload_round_trip() {
    // A body chunk filling the 16-bit length field exactly still round-trips.
    let chunk = vec![0xA5u8; 0xFFFF];
    let dg = encode_resp_body_v3(&chunk, 0, 1, 0, 0x2, PSK).expect("encode");
    let parsed = decode_packet_v3(&dg, PSK).expect("decode");
    match parsed.payload {
        PayloadV3::RespBody(b) => assert_eq!(b.chunk, chunk),
        _ => panic!("unexpected payload"),
    }
}
