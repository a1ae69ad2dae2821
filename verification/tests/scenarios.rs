//! End-to-end exchanges: the verified responder produces the packets of a
//! response, and the verified session reassembles them, with loss,
//! tampering and remote errors injected in between.

use akari_udp_core::{
    build_response_packets, decode_packet_v3, encode_error_v3, encode_request_v3, encode_resp_head_v3,
    select_by_bitmap, AkariRequestConfig, ClientError, HeaderV3, PayloadV3, RequestMethod, RequestSession,
    SessionStep, FLAG_AGG_TAG, FLAG_SHORT_ID, FLAG_SHORT_LEN,
};
use hmac::Mac;

const PSK: &[u8] = b"test-psk-0000-test";

fn hmac_sha256_tag(body: &[u8]) -> Vec<u8> {
    let mut mac = hmac::Hmac::<sha2::Sha256>::new_from_slice(PSK).unwrap();
    mac.update(body);
    mac.finalize().into_bytes()[..16].to_vec()
}

fn nack_bitmap(step: &SessionStep) -> (bool, Vec<u8>) {
    match step {
        SessionStep::SendNack(dg) => {
            let parsed = decode_packet_v3(dg, PSK).expect("nack decodes");
            match parsed.payload {
                PayloadV3::NackBody(n) => (false, n.bitmap),
                PayloadV3::NackHead(n) => (true, n.bitmap),
                _ => panic!("not a NACK"),
            }
        }
        _ => panic!("expected SendNack, got {:?}", step),
    }
}

#[test]
fn simple_get_with_aggregate_tag() {
    let message_id = 0x10;
    let flags = FLAG_AGG_TAG;
    let body = b"hello world".to_vec();
    let headers = vec![("content-type".to_string(), "text/html".to_string())];

    let request = encode_request_v3(RequestMethod::Get, "https://example.com/", &[], message_id, 0, flags, PSK)
        .expect("encode request");
    let parsed_req = decode_packet_v3(&request, PSK).expect("request decodes");
    assert!(matches!(parsed_req.payload, PayloadV3::Request(_)));

    let resp = build_response_packets(200, &headers, &body, 1200, flags, message_id, PSK).expect("respond");
    assert_eq!(resp.head.len(), 1);
    assert_eq!(resp.body.len(), 1);

    // The single body packet carries 11 body bytes plus the 16-byte
    // aggregate tag, which is HMAC-SHA256(PSK, body) truncated.
    let body_packet = decode_packet_v3(&resp.body[0], PSK).expect("body decodes");
    match body_packet.payload {
        PayloadV3::RespBody(b) => {
            assert_eq!(b.chunk, body);
            assert_eq!(b.agg_tag, Some(hmac_sha256_tag(&body)));
        }
        _ => panic!("unexpected payload"),
    }

    let config = AkariRequestConfig::default().to_rust();
    let mut session = RequestSession::new(message_id, flags, &config);
    assert!(matches!(session.on_datagram(&resp.head[0], PSK), SessionStep::Continue));
    assert!(matches!(session.on_datagram(&resp.body[0], PSK), SessionStep::Complete));
    let response = session.finish(PSK, 0, 0).expect("assembles");
    assert_eq!(response.status_code, 200);
    assert_eq!(response.body, body);
    assert_eq!(response.headers, headers);
    assert_eq!(response.stats.nacks_sent, 0);
}

#[test]
fn chunked_body_with_loss() {
    let message_id = 0x20;
    let flags = FLAG_AGG_TAG;
    let body: Vec<u8> = (0..5000u32).map(|i| (i % 251) as u8).collect();
    let headers = vec![("content-length".to_string(), "5000".to_string())];

    let resp = build_response_packets(200, &headers, &body, 1000, flags, message_id, PSK).expect("respond");
    assert_eq!(resp.body.len(), 5);

    let config = AkariRequestConfig::default().to_rust();
    let mut session = RequestSession::new(message_id, flags, &config);
    assert!(matches!(session.on_datagram(&resp.head[0], PSK), SessionStep::Continue));
    // seq 2 is dropped in transit
    assert!(matches!(session.on_datagram(&resp.body[0], PSK), SessionStep::Continue));
    assert!(matches!(session.on_datagram(&resp.body[1], PSK), SessionStep::Continue));
    assert!(matches!(session.on_datagram(&resp.body[3], PSK), SessionStep::Continue));
    // the final chunk arrives while seq 2 is missing: the session emits a
    // NackBody whose bitmap marks exactly seq 2
    let step = session.on_datagram(&resp.body[4], PSK);
    let (is_head, bitmap) = nack_bitmap(&step);
    assert!(!is_head);
    assert_eq!(bitmap, vec![0x04]);

    // the proxy retransmits seq 2 byte-identically
    let retransmit = select_by_bitmap(&resp.body, &bitmap);
    assert_eq!(retransmit.len(), 1);
    assert_eq!(retransmit[0], resp.body[2]);

    assert!(matches!(session.on_datagram(&retransmit[0], PSK), SessionStep::Complete));
    let response = session.finish(PSK, 0, 0).expect("assembles");
    assert_eq!(response.body, body);
    assert_eq!(response.stats.nacks_sent, 1);
}

#[test]
fn large_header_block_with_loss() {
    let message_id = 0x30;
    let flags = 0u8;
    // 40 headers of 80 wire bytes each: a 3200-byte block, split into three
    // chunks under the 1200-byte payload limit.
    let headers: Vec<(String, String)> = (0..40)
        .map(|i| (format!("x-hdr-{:04}", i), "v".repeat(66)))
        .collect();
    let body = b"ok".to_vec();

    let resp = build_response_packets(200, &headers, &body, 1200, flags, message_id, PSK).expect("respond");
    assert_eq!(resp.head.len(), 3);

    let mut config = AkariRequestConfig::default().to_rust();
    config.agg_tag = false;
    let mut session = RequestSession::new(message_id, flags, &config);
    // RespHeadCont idx 1 is dropped in transit
    assert!(matches!(session.on_datagram(&resp.head[0], PSK), SessionStep::Continue));
    assert!(matches!(session.on_datagram(&resp.head[2], PSK), SessionStep::Continue));
    assert!(matches!(session.on_datagram(&resp.body[0], PSK), SessionStep::Continue));

    // the socket timeout elapses; the session emits a NackHead whose bitmap
    // marks exactly hdr_idx 1
    let step = session.on_sock_timeout(PSK);
    let (is_head, bitmap) = nack_bitmap(&step);
    assert!(is_head);
    assert_eq!(bitmap, vec![0x02]);

    let retransmit = select_by_bitmap(&resp.head, &bitmap);
    assert_eq!(retransmit.len(), 1);
    assert_eq!(retransmit[0], resp.head[1]);

    assert!(matches!(session.on_datagram(&retransmit[0], PSK), SessionStep::Complete));
    let response = session.finish(PSK, 0, 0).expect("assembles");
    // headers reassemble in ascending hdr_idx order
    assert_eq!(response.headers, headers);
    assert_eq!(response.body, body);
}

#[test]
fn tampered_body_packet_is_dropped_and_recovered() {
    let message_id = 0x40;
    let flags = 0u8;
    let body = b"abcdefgh".to_vec();
    let headers: Vec<(String, String)> = vec![];

    let resp = build_response_packets(200, &headers, &body, 4, flags, message_id, PSK).expect("respond");
    assert_eq!(resp.body.len(), 2);

    let mut config = AkariRequestConfig::default().to_rust();
    config.agg_tag = false;
    let mut session = RequestSession::new(message_id, flags, &config);
    assert!(matches!(session.on_datagram(&resp.head[0], PSK), SessionStep::Continue));
    assert!(matches!(session.on_datagram(&resp.body[0], PSK), SessionStep::Continue));

    // one bit of the last body packet flips in transit: the packet is
    // silently dropped, not counted as progress
    let mut tampered = resp.body[1].clone();
    let n = tampered.len();
    tampered[n - 20] ^= 0x10;
    assert!(matches!(session.on_datagram(&tampered, PSK), SessionStep::Continue));
    assert!(!session.acc.body_complete());

    // the socket timeout elapses and the session NACKs the missing chunk
    let step = session.on_sock_timeout(PSK);
    let (is_head, bitmap) = nack_bitmap(&step);
    assert!(!is_head);
    assert_eq!(bitmap, vec![0x02]);
    let retransmit = select_by_bitmap(&resp.body, &bitmap);
    assert!(matches!(session.on_datagram(&retransmit[0], PSK), SessionStep::Complete));
    let response = session.finish(PSK, 0, 0).expect("assembles");
    assert_eq!(response.body, body);
}

#[test]
fn short_id_and_short_len_forms() {
    let message_id = 0x1234;
    let flags = FLAG_SHORT_ID | FLAG_SHORT_LEN;

    let request = encode_request_v3(RequestMethod::Get, "https://example.com/", &[], message_id, 0, flags, PSK)
        .expect("encode request");
    // the request header carries the message id in 2 bytes instead of 8
    let header = HeaderV3::from_bytes(&request).expect("header parses");
    assert_eq!(header.encoded_len(), 14);
    assert_eq!(header.message_id, 0x1234);

    // the RespHead declares body_len 0x00FFFF in 3 bytes
    let head = encode_resp_head_v3(200, 0, &[], 0x00FFFF, 1, 0, 1, flags, message_id, PSK).expect("encode");
    // header(14) + payload(status 2 + len 3 + counters 2) + tag(16)
    assert_eq!(head.len(), 14 + 7 + 16);
    let parsed = decode_packet_v3(&head, PSK).expect("decodes");
    assert_eq!(parsed.header.message_id, 0x1234);
    match parsed.payload {
        PayloadV3::RespHead(h) => {
            assert_eq!(h.status_code, 200);
            assert_eq!(h.body_len, 0x00FFFF);
        }
        _ => panic!("unexpected payload"),
    }

    let parsed_req = decode_packet_v3(&request, PSK).expect("request decodes");
    assert_eq!(parsed_req.header.message_id, 0x1234);
    match parsed_req.payload {
        PayloadV3::Request(req) => {
            assert_eq!(req.method, RequestMethod::Get);
            assert_eq!(req.url, "https://example.com/");
        }
        _ => panic!("unexpected payload"),
    }
}

#[test]
fn remote_error_terminates_request() {
    let message_id = 0x50;
    let config = AkariRequestConfig::default().to_rust();
    let mut session = RequestSession::new(message_id, 0, &config);

    let error_packet = encode_error_v3("bad gateway", 1, 502, message_id, 0, PSK).expect("encode");
    match session.on_datagram(&error_packet, PSK) {
        SessionStep::Failed(ClientError::RemoteError { code, http_status, message }) => {
            assert_eq!(code, 1);
            assert_eq!(http_status, 502);
            assert_eq!(message, "bad gateway");
        }
        other => panic!("expected RemoteError, got {:?}", other),
    }
}

#[test]
fn aggregate_tag_mismatch_detected() {
    // Mutating a body byte after reassembly is caught by the aggregate tag.
    let message_id = 0x60;
    let flags = FLAG_AGG_TAG;
    let body = b"payload-bytes".to_vec();
    let headers: Vec<(String, String)> = vec![];

    let resp = build_response_packets(200, &headers, &body, 6, flags, message_id, PSK).expect("respond");
    let config = AkariRequestConfig::default().to_rust();

    // a clean run verifies
    let mut session = RequestSession::new(message_id, flags, &config);
    session.on_datagram(&resp.head[0], PSK);
    for p in &resp.body {
        session.on_datagram(p, PSK);
    }
    assert!(session.finish(PSK, 0, 0).is_ok());

    // a run whose first chunk is swapped for other bytes assembles a
    // different body, and the aggregate tag no longer matches
    let forged = build_response_packets(200, &headers, &b"Xayload-bytes".to_vec(), 6, flags, message_id, PSK)
        .expect("respond");
    let mut session = RequestSession::new(message_id, flags, &config);
    session.on_datagram(&resp.head[0], PSK);
    session.on_datagram(&forged.body[0], PSK);
    for p in &resp.body[1..] {
        session.on_datagram(p, PSK);
    }
    assert!(matches!(session.finish(PSK, 0, 0), Err(ClientError::AggTagMismatch)));
}

#[test]
fn request_resend_then_response() {
    // Before anything is heard, a socket timeout resends the request while
    // retries remain, then gives up resending.
    let message_id = 0x70;
    let mut config = AkariRequestConfig::default().to_rust();
    config.initial_request_retries = 1;
    config.agg_tag = false;
    let mut session = RequestSession::new(message_id, 0, &config);
    assert!(matches!(session.on_sock_timeout(PSK), SessionStep::ResendRequest));
    assert!(matches!(session.on_sock_timeout(PSK), SessionStep::Continue));

    let no_headers: Vec<(String, String)> = vec![];
    let resp = build_response_packets(204, &no_headers, &Vec::new(), 1200, 0, message_id, PSK).expect("respond");
    assert_eq!(resp.body.len(), 0);
    assert!(matches!(session.on_datagram(&resp.head[0], PSK), SessionStep::Complete));
    let response = session.finish(PSK, 0, 0).expect("assembles");
    assert_eq!(response.status_code, 204);
    assert_eq!(response.body, Vec::<u8>::new());
    assert_eq!(response.stats.request_retries, 1);
}

#[test]
fn foreign_message_id_ignored() {
    let config = AkariRequestConfig::default().to_rust();
    let mut session = RequestSession::new(0x80, 0, &config);
    let no_headers: Vec<(String, String)> = vec![];
    let resp = build_response_packets(200, &no_headers, &b"x".to_vec(), 1200, 0, 0x81, PSK).expect("respond");
    assert!(matches!(session.on_datagram(&resp.head[0], PSK), SessionStep::Continue));
    assert!(session.acc.status_code.is_none());
}
