//! AKARI-UDP: a datagram request/response protocol for tunneling HTTP
//! exchanges over UDP, authenticated with a pre-shared key.
//!
//! The crate holds the wire codecs for the v1/v2 and v3 packet formats, the
//! header-block compression scheme, the client-side reassembly and NACK state
//! machine, and the proxy-side response chunking. Socket handling lives with
//! the caller; everything here is pure computation over byte vectors.

pub mod api;
pub mod bytes_be;
pub mod client;
pub mod crypto;
pub mod decode;
pub mod decode_v3;
pub mod encode;
pub mod encode_v3;
pub mod error;
pub mod hdrblock;
pub mod header;
pub mod header_v3;
pub mod laws;
pub mod payload;
pub mod responder;
pub mod session;
pub mod textutil;

pub use crate::api::{default_request_config, AkariHttpResponse, AkariRequestConfig, AkariTransferStats};
pub use crate::client::{
    build_missing_bitmap, build_missing_hdr_bitmap, HttpResponse, RequestConfig, ResponseAccumulator,
    TransferStats,
};
pub use crate::crypto::{compute_tag, decrypt_payload, decrypt_payload_v3, encrypt_payload, encrypt_payload_v3};
pub use crate::decode::decode_packet;
pub use crate::decode_v3::decode_packet_v3;
pub use crate::encode::{
    encode_ack_v2, encode_error, encode_error_v2, encode_nack_v2, encode_request, encode_request_v2,
    encode_response_chunk, encode_response_chunk_v2, encode_response_first_chunk,
    encode_response_first_chunk_v2, ensure_payload_size,
};
pub use crate::encode_v3::{
    encode_error_v3, encode_nack_body_v3, encode_nack_head_v3, encode_request_v3, encode_resp_body_v3,
    encode_resp_body_v3_agg, encode_resp_head_cont_v3, encode_resp_head_v3, max_body_chunk_len,
};
pub use crate::error::{AkariError, ClientError};
pub use crate::hdrblock::{decode_header_block, encode_header_block, get_header_name, static_header_id};
pub use crate::header::{Header, MessageType, HEADER_LEN, VERSION_V1, VERSION_V2};
pub use crate::header_v3::{
    HeaderV3, PacketTypeV3, FLAG_AGG_TAG, FLAG_ENCRYPT, FLAG_SHORT_ID, FLAG_SHORT_LEN, VERSION_V3,
};
pub use crate::payload::{
    AckPayload, ErrorPayload, NackPayload, NackPayloadV3, ParsedPacket, ParsedPacketV3, Payload, PayloadV3,
    RequestMethod, RequestPayload, RespBodyPayloadV3, RespHeadPayloadV3, ResponseChunk,
};
pub use crate::responder::{build_response_packets, select_by_bitmap, split_chunks, ResponsePackets};
pub use crate::session::{RequestSession, SessionStep};
