//! The client engine's state machine for one request, as a pure step
//! function: the caller owns the socket and the clocks, feeds in each
//! received datagram or socket timeout, performs the returned action, and
//! asks for the assembled response once the session reports completion.

use vstd::prelude::*;

use crate::client::{
    build_missing_bitmap, build_missing_hdr_bitmap, spec_add_body, spec_add_head, spec_add_head_cont,
    spec_assemble_chunks, spec_bitmap, spec_body_complete, spec_header_complete, spec_missing_below, spec_new_acc,
    AccModel, HttpResponse, RequestConfig, ResponseAccumulator, TransferStats,
};
use crate::crypto::{compute_tag, ct_bytes_eq, tag_of};
use crate::decode_v3::{decode_packet_v3, spec_decode_packet_v3};
use crate::encode_v3::{encode_nack_body_v3, encode_nack_head_v3, spec_encode_nack_v3};
use crate::error::{AkariError, ClientError, SpecClientError};
use crate::hdrblock::{spec_header_entries, view_pairs};
use crate::header_v3::PacketTypeV3;
use crate::payload::{PayloadV3, SpecPayloadV3};

verus! {

/// What the caller must do after feeding the session an event.
#[derive(Debug)]
pub enum SessionStep {
    /// Keep receiving.
    Continue,
    /// Send the original request datagram again.
    ResendRequest,
    /// Send this NACK datagram; it counts as activity.
    SendNack(Vec<u8>),
    /// Headers and body are complete: assemble the response.
    Complete,
    /// The request failed; stop.
    Failed(ClientError),
}

/// Mathematical view of a session step.
pub enum SpecSessionStep {
    Continue,
    ResendRequest,
    SendNack(Seq<u8>),
    Complete,
    Failed(SpecClientError),
}

impl View for SessionStep {
    type V = SpecSessionStep;

    open spec fn view(&self) -> SpecSessionStep {
        match self {
            SessionStep::Continue => SpecSessionStep::Continue,
            SessionStep::ResendRequest => SpecSessionStep::ResendRequest,
            SessionStep::SendNack(d) => SpecSessionStep::SendNack(d@),
            SessionStep::Complete => SpecSessionStep::Complete,
            SessionStep::Failed(e) => SpecSessionStep::Failed(e@),
        }
    }
}

/// Mathematical state of a request session.
pub struct SessionModel {
    pub message_id: u64,
    pub flags: u8,
    pub agg_tag_expected: bool,
    pub max_nack_rounds: Option<u32>,
    pub req_retries_left: u32,
    pub nacks_sent: u32,
    pub request_retries: u32,
    pub acc: AccModel,
}

/// Whether another NACK round is allowed.
pub open spec fn spec_can_nack(m: SessionModel) -> bool {
    match m.max_nack_rounds {
        Some(mx) => m.nacks_sent < mx,
        None => true,
    }
}

/// A counter bumped without wrapping.
pub open spec fn spec_bump(n: u32) -> u32 {
    if n < u32::MAX {
        (n + 1) as u32
    } else {
        n
    }
}

/// Both reassemblies are complete.
pub open spec fn spec_session_complete(a: AccModel) -> bool {
    spec_header_complete(a) && spec_body_complete(a)
}

/// Nothing of the response has been seen yet.
pub open spec fn spec_acc_empty(a: AccModel) -> bool {
    a.body.len() == 0 && a.hdrs.len() == 0 && a.status is None
}

/// The step that emits a NACK over the given missing indices: the bitmap is
/// built and framed, and the NACK round is counted.
pub open spec fn spec_nack_step(
    m: SessionModel,
    packet_type: PacketTypeV3,
    missing: Seq<u16>,
    psk: Seq<u8>,
) -> (SessionModel, SpecSessionStep) {
    let bm = spec_bitmap(missing);
    match spec_encode_nack_v3(packet_type, bm, m.message_id, m.flags, psk) {
        Ok(d) => (SessionModel { nacks_sent: spec_bump(m.nacks_sent), ..m }, SpecSessionStep::SendNack(d)),
        Err(_) => (m, SpecSessionStep::Failed(SpecClientError::Protocol(Seq::empty()))),
    }
}

/// What a received datagram does to the session. Undecodable packets and
/// packets for another message id are dropped silently. Response packets
/// feed the accumulator; completion of both reassemblies finishes the
/// session; the final body chunk arriving while chunks are missing triggers
/// a body NACK; an Error packet fails the request.
pub open spec fn spec_on_datagram(m: SessionModel, datagram: Seq<u8>, psk: Seq<u8>) -> (
    SessionModel,
    SpecSessionStep,
) {
    match spec_decode_packet_v3(datagram, psk) {
        Err(_) => (m, SpecSessionStep::Continue),
        Ok(p) => if p.header.message_id != m.message_id {
            (m, SpecSessionStep::Continue)
        } else {
            match p.payload {
                SpecPayloadV3::RespHead(h) => {
                    let m2 = SessionModel { acc: spec_add_head(m.acc, h), ..m };
                    if spec_session_complete(m2.acc) {
                        (m2, SpecSessionStep::Complete)
                    } else {
                        (m2, SpecSessionStep::Continue)
                    }
                },
                SpecPayloadV3::RespHeadCont { hdr_idx, hdr_chunks, header_block } => {
                    let m2 = SessionModel { acc: spec_add_head_cont(m.acc, hdr_idx, hdr_chunks, header_block), ..m };
                    if spec_session_complete(m2.acc) {
                        (m2, SpecSessionStep::Complete)
                    } else {
                        (m2, SpecSessionStep::Continue)
                    }
                },
                SpecPayloadV3::RespBody(b) => {
                    let m2 = SessionModel { acc: spec_add_body(m.acc, b, Some(p.header.seq_total)), ..m };
                    if spec_session_complete(m2.acc) {
                        (m2, SpecSessionStep::Complete)
                    } else {
                        match m2.acc.body_total {
                            Some(total) => if total > 0 && b.seq == total - 1 && spec_can_nack(m2) {
                                let missing = spec_missing_below(m2.acc.body, total as int);
                                if missing.len() > 0 {
                                    spec_nack_step(m2, PacketTypeV3::NackBody, missing, psk)
                                } else {
                                    (m2, SpecSessionStep::Continue)
                                }
                            } else {
                                (m2, SpecSessionStep::Continue)
                            },
                            None => (m2, SpecSessionStep::Continue),
                        }
                    }
                },
                SpecPayloadV3::Error(e) => (
                    m,
                    SpecSessionStep::Failed(
                        SpecClientError::RemoteError {
                            code: e.error_code,
                            http_status: e.http_status,
                            message: e.message,
                        },
                    ),
                ),
                _ => (m, SpecSessionStep::Continue),
            }
        },
    }
}

/// What a socket timeout does to the session: resend the request while
/// nothing has been heard and retries remain; else NACK missing headers,
/// else missing body chunks, within the NACK budget; else keep waiting.
pub open spec fn spec_on_sock_timeout(m: SessionModel, psk: Seq<u8>) -> (SessionModel, SpecSessionStep) {
    if spec_acc_empty(m.acc) && m.req_retries_left > 0 {
        (
            SessionModel {
                req_retries_left: (m.req_retries_left - 1) as u32,
                request_retries: spec_bump(m.request_retries),
                ..m
            },
            SpecSessionStep::ResendRequest,
        )
    } else {
        let hdr_missing = match m.acc.hdr_total {
            Some(total) => spec_missing_below(m.acc.hdrs, total as int),
            None => Seq::empty(),
        };
        let body_missing = match m.acc.body_total {
            Some(total) => spec_missing_below(m.acc.body, total as int),
            None => Seq::empty(),
        };
        if m.acc.hdr_total is Some && !spec_header_complete(m.acc) && spec_can_nack(m) && hdr_missing.len() > 0 {
            spec_nack_step(m, PacketTypeV3::NackHead, hdr_missing, psk)
        } else if m.acc.body_total is Some && !spec_body_complete(m.acc) && spec_can_nack(m) && body_missing.len()
            > 0 {
            spec_nack_step(m, PacketTypeV3::NackBody, body_missing, psk)
        } else {
            (m, SpecSessionStep::Continue)
        }
    }
}

/// What finishing the session yields when it cannot yield a response:
/// incomplete reassembly, or a failed (or missing) aggregate tag.
pub open spec fn spec_finish_error(m: SessionModel, psk: Seq<u8>) -> Option<SpecClientError> {
    if !spec_body_complete(m.acc) || m.acc.status is None {
        Some(SpecClientError::Incomplete)
    } else if m.agg_tag_expected {
        match m.acc.agg_tag {
            Some(t) => if t != tag_of(psk, spec_assemble_chunks(m.acc.body)) {
                Some(SpecClientError::AggTagMismatch)
            } else {
                None
            },
            None => match m.acc.body_total {
                Some(total) => if total > 0 {
                    Some(SpecClientError::AggTagMismatch)
                } else {
                    None
                },
                None => None,
            },
        }
    } else {
        None
    }
}

/// The state machine for one in-flight request.
pub struct RequestSession {
    pub message_id: u64,
    pub flags: u8,
    pub agg_tag_expected: bool,
    pub max_nack_rounds: Option<u32>,
    pub req_retries_left: u32,
    pub nacks_sent: u32,
    pub request_retries: u32,
    pub acc: ResponseAccumulator,
}

impl View for RequestSession {
    type V = SessionModel;

    open spec fn view(&self) -> SessionModel {
        SessionModel {
            message_id: self.message_id,
            flags: self.flags,
            agg_tag_expected: self.agg_tag_expected,
            max_nack_rounds: self.max_nack_rounds,
            req_retries_left: self.req_retries_left,
            nacks_sent: self.nacks_sent,
            request_retries: self.request_retries,
            acc: self.acc@,
        }
    }
}

impl RequestSession {
    /// A fresh session for one request, with the retry and NACK budgets the
    /// configuration gives.
    pub fn new(message_id: u64, flags: u8, config: &RequestConfig) -> (r: Self)
        ensures
            r@ == (SessionModel {
                message_id,
                flags,
                agg_tag_expected: config.agg_tag,
                max_nack_rounds: config.max_nack_rounds,
                req_retries_left: config.initial_request_retries,
                nacks_sent: 0,
                request_retries: 0,
                acc: spec_new_acc(message_id),
            }),
    {
        let r = RequestSession {
            message_id,
            flags,
            agg_tag_expected: config.agg_tag,
            max_nack_rounds: config.max_nack_rounds,
            req_retries_left: config.initial_request_retries,
            nacks_sent: 0,
            request_retries: 0,
            acc: ResponseAccumulator::new(message_id),
        };
        r
    }

    /// Whether another NACK round is allowed.
    fn can_nack(&self) -> (r: bool)
        ensures
            r == spec_can_nack(self@),
    {
        match self.max_nack_rounds {
            Some(mx) => self.nacks_sent < mx,
            None => true,
        }
    }

    /// Count a NACK round, without wrapping.
    fn bump_nacks(&mut self)
        ensures
            final(self)@ == (SessionModel { nacks_sent: spec_bump(old(self)@.nacks_sent), ..old(self)@ }),
    {
        if self.nacks_sent < u32::MAX {
            self.nacks_sent = self.nacks_sent + 1;
        }
    }

    /// Feed one received datagram to the session.
    pub fn on_datagram(&mut self, datagram: &[u8], psk: &[u8]) -> (r: SessionStep)
        ensures
            final(self)@ == spec_on_datagram(old(self)@, datagram@, psk@).0,
            r@ == spec_on_datagram(old(self)@, datagram@, psk@).1,
    {
        let parsed = match decode_packet_v3(datagram, psk) {
            Ok(p) => p,
            Err(_) => {
                return SessionStep::Continue;
            },
        };
        if parsed.header.message_id != self.message_id {
            return SessionStep::Continue;
        }
        let header = parsed.header;
        match parsed.payload {
            PayloadV3::RespHead(h) => {
                self.acc.add_head(&h);
                if self.acc.header_complete() && self.acc.body_complete() {
                    SessionStep::Complete
                } else {
                    SessionStep::Continue
                }
            },
            PayloadV3::RespHeadCont { hdr_idx, hdr_chunks, header_block } => {
                self.acc.add_head_cont(hdr_idx, hdr_chunks, header_block);
                if self.acc.header_complete() && self.acc.body_complete() {
                    SessionStep::Complete
                } else {
                    SessionStep::Continue
                }
            },
            PayloadV3::RespBody(b) => {
                self.acc.add_body(&b, Some(header.seq_total));
                if self.acc.body_complete() && self.acc.header_complete() {
                    return SessionStep::Complete;
                }
                match self.acc.body_seq_total {
                    Some(total) => {
                        if total > 0 && b.seq == total - 1 && self.can_nack() {
                            let missing = self.acc.missing_body_seqs();
                            if missing.len() > 0 {
                                let bm = build_missing_bitmap(missing.as_slice());
                                match encode_nack_body_v3(bm.as_slice(), self.message_id, self.flags, psk) {
                                    Ok(d) => {
                                        self.bump_nacks();
                                        SessionStep::SendNack(d)
                                    },
                                    Err(_) => SessionStep::Failed(ClientError::Protocol(String::new())),
                                }
                            } else {
                                SessionStep::Continue
                            }
                        } else {
                            SessionStep::Continue
                        }
                    },
                    None => SessionStep::Continue,
                }
            },
            PayloadV3::Error(e) => SessionStep::Failed(
                ClientError::RemoteError {
                    code: e.error_code,
                    http_status: e.http_status,
                    message: e.message,
                },
            ),
            PayloadV3::Request(_) => SessionStep::Continue,
            PayloadV3::NackHead(_) => SessionStep::Continue,
            PayloadV3::NackBody(_) => SessionStep::Continue,
        }
    }

    /// Feed one socket timeout to the session.
    pub fn on_sock_timeout(&mut self, psk: &[u8]) -> (r: SessionStep)
        ensures
            final(self)@ == spec_on_sock_timeout(old(self)@, psk@).0,
            r@ == spec_on_sock_timeout(old(self)@, psk@).1,
    {
        let empty = self.acc.body_chunks.len() == 0 && self.acc.hdr_chunks.len() == 0
            && self.acc.status_code.is_none();
        if empty && self.req_retries_left > 0 {
            self.req_retries_left = self.req_retries_left - 1;
            if self.request_retries < u32::MAX {
                self.request_retries = self.request_retries + 1;
            }
            return SessionStep::ResendRequest;
        }
        if self.acc.hdr_total.is_some() && !self.acc.header_complete() && self.can_nack() {
            let missing = self.acc.missing_header_indices();
            if missing.len() > 0 {
                let bm = build_missing_hdr_bitmap(missing.as_slice());
                match encode_nack_head_v3(bm.as_slice(), self.message_id, self.flags, psk) {
                    Ok(d) => {
                        self.bump_nacks();
                        return SessionStep::SendNack(d);
                    },
                    Err(_) => {
                        return SessionStep::Failed(ClientError::Protocol(String::new()));
                    },
                }
            }
        }
        if self.acc.body_seq_total.is_some() && !self.acc.body_complete() && self.can_nack() {
            let missing = self.acc.missing_body_seqs();
            if missing.len() > 0 {
                let bm = build_missing_bitmap(missing.as_slice());
                match encode_nack_body_v3(bm.as_slice(), self.message_id, self.flags, psk) {
                    Ok(d) => {
                        self.bump_nacks();
                        return SessionStep::SendNack(d);
                    },
                    Err(_) => {
                        return SessionStep::Failed(ClientError::Protocol(String::new()));
                    },
                }
            }
        }
        SessionStep::Continue
    }

    /// Assemble the response once the session is complete: headers decoded
    /// from the reassembled header block (empty if headers never
    /// completed), the reassembled body, and — when an aggregate tag was
    /// requested — the tag verified against the body.
    pub fn finish(&self, psk: &[u8], bytes_sent: u64, bytes_received: u64) -> (r: Result<HttpResponse, ClientError>)
        ensures
            r is Err <==> spec_finish_error(self@, psk@) is Some,
            r matches Err(e) ==> spec_finish_error(self@, psk@) == Some(e@),
            r matches Ok(resp) ==> {
                &&& Some(resp.status_code) == self@.acc.status
                &&& resp.body@ == spec_assemble_chunks(self@.acc.body)
                &&& view_pairs(resp.headers@) == if spec_header_complete(self@.acc) {
                    spec_header_entries(spec_assemble_chunks(self@.acc.hdrs))
                } else {
                    Seq::<(Seq<char>, Seq<char>)>::empty()
                }
                &&& resp.stats.bytes_sent == bytes_sent
                &&& resp.stats.bytes_received == bytes_received
                &&& resp.stats.nacks_sent == self@.nacks_sent
                &&& resp.stats.request_retries == self@.request_retries
            },
    {
        let headers = match self.acc.assemble_headers() {
            Some(h) => h,
            None => Vec::new(),
        };
        let body = match self.acc.assemble_body() {
            Some(b) => b,
            None => {
                return Err(ClientError::Incomplete);
            },
        };
        let status_code = match self.acc.status_code {
            Some(s) => s,
            None => {
                return Err(ClientError::Incomplete);
            },
        };
        if self.agg_tag_expected {
            match &self.acc.agg_tag {
                Some(received) => {
                    let expected = match compute_tag(psk, body.as_slice()) {
                        Ok(t) => t,
                        Err(_) => {
                            return Err(ClientError::AggTagMismatch);
                        },
                    };
                    if !ct_bytes_eq(received.as_slice(), expected.as_slice()) {
                        return Err(ClientError::AggTagMismatch);
                    }
                },
                None => {
                    match self.acc.body_seq_total {
                        Some(total) => {
                            if total > 0 {
                                return Err(ClientError::AggTagMismatch);
                            }
                        },
                        None => {},
                    }
                },
            }
        }
        proof {
            assert(view_pairs(Seq::<(String, String)>::empty()) =~= Seq::<(Seq<char>, Seq<char>)>::empty());
        }
        Ok(
            HttpResponse {
                status_code,
                headers,
                body,
                stats: TransferStats {
                    bytes_sent,
                    bytes_received,
                    nacks_sent: self.nacks_sent,
                    request_retries: self.request_retries,
                },
            },
        )
    }
}

} // verus!
