//! The client-side pieces: header-block codec, NACK bitmaps, accumulator
//! behaviour, and the configuration types.

use akari_udp_core::{
    build_missing_bitmap, build_missing_hdr_bitmap, decode_header_block, default_request_config,
    encode_header_block, get_header_name, static_header_id, AkariRequestConfig, RequestConfig,
    RespBodyPayloadV3, ResponseAccumulator,
};

#[test]
fn test_decode_header_block_static() {
    // Header ID 1 (content-type) with value "text/html"
    let block = [0x01, 0x00, 0x09, b't', b'e', b'x', b't', b'/', b'h', b't', b'm', b'l'];
    let headers = decode_header_block(&block);
    assert_eq!(headers.len(), 1);
    assert_eq!(headers[0].0, "content-type");
    assert_eq!(headers[0].1, "text/html");
}

#[test]
fn test_decode_header_block_literal() {
    // Literal name "x-custom" with value "foo"
    let block = [
        0x00, 0x08, b'x', b'-', b'c', b'u', b's', b't', b'o', b'm', 0x00, 0x03, b'f', b'o', b'o',
    ];
    let headers = decode_header_block(&block);
    assert_eq!(headers.len(), 1);
    assert_eq!(headers[0].0, "x-custom");
    assert_eq!(headers[0].1, "foo");
}

#[test]
fn test_build_missing_bitmap() {
    let missing = vec![0u16, 2, 5];
    let bitmap = build_missing_bitmap(&missing);
    // bit 0, 2, 5 set = 0b00100101 = 0x25
    assert_eq!(bitmap, vec![0x25]);
}

#[test]
fn test_build_missing_bitmap_multi_byte() {
    let missing = vec![0u16, 8, 15];
    let bitmap = build_missing_bitmap(&missing);
    // byte 0: bit 0 = 0x01
    // byte 1: bit 0 (seq 8), bit 7 (seq 15) = 0x81
    assert_eq!(bitmap, vec![0x01, 0x81]);
}

#[test]
fn test_build_missing_bitmap_empty() {
    assert_eq!(build_missing_bitmap(&[]), Vec::<u8>::new());
}

#[test]
fn test_build_missing_hdr_bitmap() {
    assert_eq!(build_missing_hdr_bitmap(&[1u8]), vec![0x02]);
    assert_eq!(build_missing_hdr_bitmap(&[0u8, 9]), vec![0x01, 0x02]);
}

#[test]
fn header_name_for_unknown_id() {
    assert_eq!(get_header_name(42), "x-unknown-42");
    assert_eq!(get_header_name(0), "x-unknown-0");
    assert_eq!(get_header_name(11), "location");
}

#[test]
fn static_id_lookup() {
    assert_eq!(static_header_id("content-type"), 1);
    assert_eq!(static_header_id("location"), 11);
    assert_eq!(static_header_id("x-custom"), 0);
}

#[test]
fn header_block_encode_decode_round_trip() {
    let headers = vec![
        ("content-type".to_string(), "text/html".to_string()),
        ("x-custom".to_string(), "foo".to_string()),
        ("server".to_string(), "akari".to_string()),
    ];
    let block = encode_header_block(&headers);
    // content-type and server travel by static ID, x-custom literally
    assert_eq!(block[0], 1);
    let decoded = decode_header_block(&block);
    assert_eq!(decoded, headers);
}

#[test]
fn test_request_config_default() {
    let config = AkariRequestConfig::default();
    assert_eq!(config.timeout_ms, 10000);
    assert_eq!(config.max_nack_rounds, Some(3));
    assert_eq!(config.initial_request_retries, 1);
    assert_eq!(config.sock_timeout_ms, 1000);
    assert_eq!(config.first_seq_timeout_ms, 500);
    assert!(config.agg_tag);
    assert!(!config.short_id);
}

#[test]
fn test_request_config_to_rust() {
    let config = AkariRequestConfig {
        timeout_ms: 5000,
        max_nack_rounds: Some(5),
        initial_request_retries: 2,
        sock_timeout_ms: 500,
        first_seq_timeout_ms: 250,
        agg_tag: false,
        short_id: true,
    };
    let rust_config = config.to_rust();
    assert_eq!(rust_config.timeout_ms, 5000);
    assert_eq!(rust_config.max_nack_rounds, Some(5));
    assert_eq!(rust_config.initial_request_retries, 2);
    assert_eq!(rust_config.sock_timeout_ms, 500);
    assert_eq!(rust_config.first_seq_timeout_ms, 250);
    assert!(!rust_config.agg_tag);
    assert!(rust_config.short_id);
}

#[test]
fn test_pool_size_clamping() {
    // Pool size should be clamped between 1 and 16
    // Note: This test can't actually create the pool without a valid server
    // but we can test the clamping logic by checking bounds
    assert!(1 <= 1_usize.max(1).min(16));
    assert!(1 <= 0_usize.max(1).min(16));
    assert_eq!(16, 100_usize.max(1).min(16));
    assert_eq!(4, 4_usize.max(1).min(16));
}

#[test]
fn test_default_request_config_function() {
    let config = default_request_config();
    assert_eq!(config.timeout_ms, 10000);
    assert!(config.agg_tag);
}

#[test]
fn client_config_default_matches_spec() {
    let c = RequestConfig::default();
    assert_eq!(c.timeout_ms, 10000);
    assert_eq!(c.max_nack_rounds, Some(3));
    assert_eq!(c.sock_timeout_ms, 1000);
    assert!(c.df);
    assert!(c.payload_max.is_none());
}

fn body_packet(seq: u16, seq_total: u16, chunk: &[u8]) -> RespBodyPayloadV3 {
    RespBodyPayloadV3 { seq, seq_total, chunk: chunk.to_vec(), agg_tag: None }
}

#[test]
fn accumulator_idempotence() {
    // Delivering the same chunk twice yields the same assembled result as
    // delivering it once.
    let mut once = ResponseAccumulator::new(1);
    once.add_body(&body_packet(0, 2, b"ab"), Some(2));
    once.add_body(&body_packet(1, 2, b"cd"), Some(2));

    let mut twice = ResponseAccumulator::new(1);
    twice.add_body(&body_packet(0, 2, b"ab"), Some(2));
    twice.add_body(&body_packet(0, 2, b"ab"), Some(2));
    twice.add_body(&body_packet(1, 2, b"cd"), Some(2));
    twice.add_body(&body_packet(1, 2, b"cd"), Some(2));

    assert_eq!(once.assemble_body(), Some(b"abcd".to_vec()));
    assert_eq!(twice.assemble_body(), Some(b"abcd".to_vec()));
    assert_eq!(twice.missing_body_seqs(), Vec::<u16>::new());
}

#[test]
fn accumulator_order_insensitive() {
    // Any arrival order of the response chunks assembles the same body.
    let chunks: [&[u8]; 3] = [b"aa", b"bb", b"cc"];
    let orders: [[u16; 3]; 3] = [[0, 1, 2], [2, 0, 1], [1, 2, 0]];
    for order in orders {
        let mut acc = ResponseAccumulator::new(7);
        for seq in order {
            acc.add_body(&body_packet(seq, 3, chunks[seq as usize]), Some(3));
        }
        assert!(acc.body_complete());
        assert_eq!(acc.assemble_body(), Some(b"aabbcc".to_vec()));
    }
}

#[test]
fn accumulator_missing_tracking() {
    let mut acc = ResponseAccumulator::new(3);
    acc.add_body(&body_packet(3, 4, b"dd"), Some(4));
    assert!(!acc.body_complete());
    assert_eq!(acc.missing_body_seqs(), vec![0, 1, 2]);
    assert_eq!(acc.assemble_body(), None);
}
