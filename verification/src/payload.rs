//! Decoded payloads of every packet type, for the legacy v1/v2 formats and
//! for v3, together with their mathematical views.

use vstd::prelude::*;

use crate::header::Header;
use crate::header_v3::HeaderV3;

verus! {

/// HTTP request methods the protocol carries.
#[derive(Debug, Clone, Copy, PartialEq, Eq, Structural)]
pub enum RequestMethod {
    Get,
    Head,
    Post,
}

/// The byte a request method is encoded as.
pub open spec fn method_byte(m: RequestMethod) -> u8 {
    match m {
        RequestMethod::Get => 0,
        RequestMethod::Head => 1,
        RequestMethod::Post => 2,
    }
}

/// The request method a byte decodes to, if any.
pub open spec fn spec_method(b: u8) -> Option<RequestMethod> {
    if b == 0 {
        Some(RequestMethod::Get)
    } else if b == 1 {
        Some(RequestMethod::Head)
    } else if b == 2 {
        Some(RequestMethod::Post)
    } else {
        None
    }
}

impl RequestMethod {
    /// The wire byte of this method.
    pub fn to_byte(self) -> (r: u8)
        ensures
            r == method_byte(self),
    {
        match self {
            RequestMethod::Get => 0,
            RequestMethod::Head => 1,
            RequestMethod::Post => 2,
        }
    }
}

/// Length of a v2 Ack payload.
pub const ACK_PAYLOAD_LEN: usize = 2;

/// A decoded request: method, URL, and the raw request header block.
#[derive(Debug, Clone, PartialEq, Eq)]
pub struct RequestPayload {
    pub method: RequestMethod,
    pub url: String,
    pub headers: Vec<u8>,
}

/// Mathematical view of a request payload.
pub struct SpecRequestPayload {
    pub method: RequestMethod,
    pub url: Seq<char>,
    pub headers: Seq<u8>,
}

impl View for RequestPayload {
    type V = SpecRequestPayload;

    open spec fn view(&self) -> SpecRequestPayload {
        SpecRequestPayload { method: self.method, url: self.url@, headers: self.headers@ }
    }
}

/// A decoded v1/v2 response chunk. The first chunk (seq 0) carries status,
/// declared body length and the optional header block.
#[derive(Debug, Clone, PartialEq, Eq)]
pub struct ResponseChunk {
    pub seq: u16,
    pub seq_total: u16,
    pub is_first: bool,
    pub status_code: Option<u16>,
    pub body_len: Option<u32>,
    pub headers: Option<Vec<u8>>,
    pub chunk: Vec<u8>,
}

/// Mathematical view of a v1/v2 response chunk.
pub struct SpecResponseChunk {
    pub seq: u16,
    pub seq_total: u16,
    pub is_first: bool,
    pub status_code: Option<u16>,
    pub body_len: Option<u32>,
    pub headers: Option<Seq<u8>>,
    pub chunk: Seq<u8>,
}

impl View for ResponseChunk {
    type V = SpecResponseChunk;

    open spec fn view(&self) -> SpecResponseChunk {
        SpecResponseChunk {
            seq: self.seq,
            seq_total: self.seq_total,
            is_first: self.is_first,
            status_code: self.status_code,
            body_len: self.body_len,
            headers: match self.headers {
                Some(h) => Some(h@),
                None => None,
            },
            chunk: self.chunk@,
        }
    }
}

/// A decoded Error payload.
#[derive(Debug, Clone, PartialEq, Eq)]
pub struct ErrorPayload {
    pub error_code: u8,
    pub http_status: u16,
    pub message: String,
}

/// Mathematical view of an Error payload.
pub struct SpecErrorPayload {
    pub error_code: u8,
    pub http_status: u16,
    pub message: Seq<char>,
}

impl View for ErrorPayload {
    type V = SpecErrorPayload;

    open spec fn view(&self) -> SpecErrorPayload {
        SpecErrorPayload {
            error_code: self.error_code,
            http_status: self.http_status,
            message: self.message@,
        }
    }
}

/// A decoded v2 Ack payload.
#[derive(Debug, Clone, Copy, PartialEq, Eq, Structural)]
pub struct AckPayload {
    pub first_lost_seq: u16,
}

/// A decoded v1/v2 Nack payload.
#[derive(Debug, Clone, PartialEq, Eq)]
pub struct NackPayload {
    pub bitmap: Vec<u8>,
}

/// A decoded v1/v2 payload.
#[derive(Debug, Clone, PartialEq, Eq)]
pub enum Payload {
    Request(RequestPayload),
    Response(ResponseChunk),
    Ack(AckPayload),
    Nack(NackPayload),
    Error(ErrorPayload),
}

/// Mathematical view of a v1/v2 payload.
pub enum SpecPayload {
    Request(SpecRequestPayload),
    Response(SpecResponseChunk),
    Ack(AckPayload),
    Nack(Seq<u8>),
    Error(SpecErrorPayload),
}

impl View for Payload {
    type V = SpecPayload;

    open spec fn view(&self) -> SpecPayload {
        match self {
            Payload::Request(p) => SpecPayload::Request(p@),
            Payload::Response(p) => SpecPayload::Response(p@),
            Payload::Ack(p) => SpecPayload::Ack(*p),
            Payload::Nack(p) => SpecPayload::Nack(p.bitmap@),
            Payload::Error(p) => SpecPayload::Error(p@),
        }
    }
}

/// A fully decoded v1/v2 packet.
#[derive(Debug, Clone, PartialEq, Eq)]
pub struct ParsedPacket {
    pub header: Header,
    pub payload: Payload,
}

/// Mathematical view of a decoded v1/v2 packet.
pub struct SpecParsedPacket {
    pub header: Header,
    pub payload: SpecPayload,
}

impl View for ParsedPacket {
    type V = SpecParsedPacket;

    open spec fn view(&self) -> SpecParsedPacket {
        SpecParsedPacket { header: self.header, payload: self.payload@ }
    }
}

/// A decoded v3 RespHead payload.
#[derive(Debug, Clone, PartialEq, Eq)]
pub struct RespHeadPayloadV3 {
    pub status_code: u16,
    pub body_len: u32,
    pub hdr_chunks: u8,
    pub hdr_idx: u8,
    pub header_block: Vec<u8>,
    pub seq_total_body: u16,
}

/// Mathematical view of a v3 RespHead payload.
pub struct SpecRespHeadPayloadV3 {
    pub status_code: u16,
    pub body_len: u32,
    pub hdr_chunks: u8,
    pub hdr_idx: u8,
    pub header_block: Seq<u8>,
    pub seq_total_body: u16,
}

impl View for RespHeadPayloadV3 {
    type V = SpecRespHeadPayloadV3;

    open spec fn view(&self) -> SpecRespHeadPayloadV3 {
        SpecRespHeadPayloadV3 {
            status_code: self.status_code,
            body_len: self.body_len,
            hdr_chunks: self.hdr_chunks,
            hdr_idx: self.hdr_idx,
            header_block: self.header_block@,
            seq_total_body: self.seq_total_body,
        }
    }
}

/// A decoded v3 RespBody payload. On the final chunk of an aggregate-tagged
/// body, the trailing 16 payload bytes are the aggregate tag, not body data.
#[derive(Debug, Clone, PartialEq, Eq)]
pub struct RespBodyPayloadV3 {
    pub seq: u16,
    pub seq_total: u16,
    pub chunk: Vec<u8>,
    pub agg_tag: Option<Vec<u8>>,
}

/// Mathematical view of a v3 RespBody payload.
pub struct SpecRespBodyPayloadV3 {
    pub seq: u16,
    pub seq_total: u16,
    pub chunk: Seq<u8>,
    pub agg_tag: Option<Seq<u8>>,
}

impl View for RespBodyPayloadV3 {
    type V = SpecRespBodyPayloadV3;

    open spec fn view(&self) -> SpecRespBodyPayloadV3 {
        SpecRespBodyPayloadV3 {
            seq: self.seq,
            seq_total: self.seq_total,
            chunk: self.chunk@,
            agg_tag: match self.agg_tag {
                Some(t) => Some(t@),
                None => None,
            },
        }
    }
}

/// A decoded v3 Nack payload.
#[derive(Debug, Clone, PartialEq, Eq)]
pub struct NackPayloadV3 {
    pub bitmap: Vec<u8>,
}

/// A decoded v3 payload.
#[derive(Debug, Clone, PartialEq, Eq)]
pub enum PayloadV3 {
    Request(RequestPayload),
    RespHead(RespHeadPayloadV3),
    RespHeadCont { hdr_idx: u8, hdr_chunks: u8, header_block: Vec<u8> },
    RespBody(RespBodyPayloadV3),
    NackHead(NackPayloadV3),
    NackBody(NackPayloadV3),
    Error(ErrorPayload),
}

/// Mathematical view of a v3 payload.
pub enum SpecPayloadV3 {
    Request(SpecRequestPayload),
    RespHead(SpecRespHeadPayloadV3),
    RespHeadCont { hdr_idx: u8, hdr_chunks: u8, header_block: Seq<u8> },
    RespBody(SpecRespBodyPayloadV3),
    NackHead(Seq<u8>),
    NackBody(Seq<u8>),
    Error(SpecErrorPayload),
}

impl View for PayloadV3 {
    type V = SpecPayloadV3;

    open spec fn view(&self) -> SpecPayloadV3 {
        match self {
            PayloadV3::Request(p) => SpecPayloadV3::Request(p@),
            PayloadV3::RespHead(p) => SpecPayloadV3::RespHead(p@),
            PayloadV3::RespHeadCont { hdr_idx, hdr_chunks, header_block } => SpecPayloadV3::RespHeadCont {
                hdr_idx: *hdr_idx,
                hdr_chunks: *hdr_chunks,
                header_block: header_block@,
            },
            PayloadV3::RespBody(p) => SpecPayloadV3::RespBody(p@),
            PayloadV3::NackHead(p) => SpecPayloadV3::NackHead(p.bitmap@),
            PayloadV3::NackBody(p) => SpecPayloadV3::NackBody(p.bitmap@),
            PayloadV3::Error(p) => SpecPayloadV3::Error(p@),
        }
    }
}

/// A fully decoded v3 packet.
#[derive(Debug, Clone, PartialEq, Eq)]
pub struct ParsedPacketV3 {
    pub header: HeaderV3,
    pub payload: PayloadV3,
}

/// Mathematical view of a decoded v3 packet.
pub struct SpecParsedPacketV3 {
    pub header: HeaderV3,
    pub payload: SpecPayloadV3,
}

impl View for ParsedPacketV3 {
    type V = SpecParsedPacketV3;

    open spec fn view(&self) -> SpecParsedPacketV3 {
        SpecParsedPacketV3 { header: self.header, payload: self.payload@ }
    }
}

} // verus!
