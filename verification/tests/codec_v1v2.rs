//! Round trips and tamper rejection for the legacy v1/v2 packet formats.

use akari_udp_core::{
    decode_packet, encode_ack_v2, encode_error, encode_nack_v2, encode_request, encode_request_v2,
    encode_response_first_chunk_v2, AkariError, MessageType, Payload, RequestMethod, RequestPayload,
    FLAG_ENCRYPT,
};

const PSK: &[u8] = b"test-psk-0000-test";

#[test]
fn request_round_trip_v1() {
    let message_id = 0x0102030405060708;
    let timestamp = 0x64636261;
    let url = "https://example.com/search?q=akari";
    let datagram = encode_request(url, message_id, timestamp, PSK).expect("encode");
    let parsed = decode_packet(&datagram, PSK).expect("decode");

    assert_eq!(parsed.header.message_type, MessageType::Req);
    assert_eq!(
        parsed.payload,
        Payload::Request(RequestPayload {
            method: RequestMethod::Get,
            url: url.to_string(),
            headers: Vec::new()
        })
    );
}

#[test]
fn request_round_trip_v2_with_headers() {
    let message_id = 0x0a0b0c0d0e0f1011;
    let timestamp = 0x01020304;
    let url = "https://example.com/index.html";
    let hdr = [0x01, 0x05, b't', b'e', b's', b't', b'/'];
    let datagram =
        encode_request_v2(RequestMethod::Get, url, &hdr, message_id, timestamp, 0x40, PSK).expect("encode");
    let parsed = decode_packet(&datagram, PSK).expect("decode");
    match parsed.payload {
        Payload::Request(req) => {
            assert_eq!(req.method, RequestMethod::Get);
            assert_eq!(req.url, url);
            assert_eq!(req.headers, hdr);
        }
        _ => panic!("unexpected payload"),
    }
}

#[test]
fn request_round_trip_v2_encrypted() {
    let message_id = 0xabcddcba11223344;
    let timestamp = 0x0f0e0d0c;
    let url = "https://example.net/secure";
    let flags = FLAG_ENCRYPT;
    let datagram =
        encode_request_v2(RequestMethod::Get, url, &[], message_id, timestamp, flags, PSK).expect("encode");
    let parsed = decode_packet(&datagram, PSK).expect("decode");
    match parsed.payload {
        Payload::Request(req) => {
            assert_eq!(req.url, url);
            assert_eq!(req.headers, Vec::<u8>::new());
        }
        _ => panic!("unexpected payload"),
    }
}

#[test]
fn ack_nack_round_trip_v2() {
    let datagram = encode_ack_v2(3, 0x33, 0x44, PSK).expect("encode ack");
    let parsed = decode_packet(&datagram, PSK).expect("decode");
    assert!(matches!(parsed.payload, Payload::Ack(_)));

    let bitmap = [0b0001_0100];
    let nack = encode_nack_v2(&bitmap, 0x55, 0x66, PSK).expect("encode nack");
    let parsed = decode_packet(&nack, PSK).expect("decode");
    match parsed.payload {
        Payload::Nack(n) => assert_eq!(n.bitmap, bitmap),
        _ => panic!("unexpected payload"),
    }
}

#[test]
fn response_first_chunk_v2_contains_headers() {
    let hdr_block = b"hdr-block";
    let body0 = b"hello";
    let datagram = encode_response_first_chunk_v2(200, 10, hdr_block, body0, 0x99, 2, 0, 0x77, PSK)
        .expect("encode");
    let parsed = decode_packet(&datagram, PSK).expect("decode");
    match parsed.payload {
        Payload::Response(resp) => {
            assert_eq!(resp.headers.as_ref().unwrap(), hdr_block);
            assert_eq!(resp.chunk, body0);
            assert_eq!(resp.status_code, Some(200));
        }
        _ => panic!("unexpected payload"),
    }
}

#[test]
fn hmac_mismatch_rejected() {
    let message_id = 0xfeedfacecafebabe;
    let timestamp = 0x12345678;
    let url = "https://example.org/foo";
    let mut datagram = encode_request(url, message_id, timestamp, PSK).expect("encode");
    let len = datagram.len();
    datagram[len - 1] ^= 0xff;

    let err = decode_packet(&datagram, PSK).unwrap_err();
    assert!(matches!(err, AkariError::HmacMismatch));
}

#[test]
fn error_round_trip_v1() {
    let datagram = encode_error(7, 503, "upstream down", 0x42, 0x1111, PSK).expect("encode");
    let parsed = decode_packet(&datagram, PSK).expect("decode");
    assert_eq!(parsed.header.message_type, MessageType::Error);
    match parsed.payload {
        Payload::Error(e) => {
            assert_eq!(e.error_code, 7);
            assert_eq!(e.http_status, 503);
            assert_eq!(e.message, "upstream down");
        }
        _ => panic!("unexpected payload"),
    }
}

#[test]
fn wrong_psk_rejected_v1() {
    let datagram = encode_request("https://example.com/", 9, 1, PSK).expect("encode");
    let err = decode_packet(&datagram, b"another-psk").unwrap_err();
    assert!(matches!(err, AkariError::HmacMismatch));
}

#[test]
fn payload_too_large_v1() {
    let url = "a".repeat(70_000);
    let err = encode_request(&url, 1, 1, PSK).unwrap_err();
    assert!(matches!(err, AkariError::PayloadTooLarge(70_004)));
}

#[test]
fn truncated_datagram_rejected_v1() {
    let err = decode_packet(&[0x41, 0x4B, 0x01], PSK).unwrap_err();
    assert!(matches!(err, AkariError::InvalidPacketLength { expected: 40, actual: 3 }));
}

#[test]
fn payload_size_guard() {
    assert_eq!(akari_udp_core::ensure_payload_size(10), Ok(10));
    assert!(matches!(
        akari_udp_core::ensure_payload_size(0x10000),
        Err(AkariError::PayloadTooLarge(0x10000))
    ));
}
