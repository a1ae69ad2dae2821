//! The narrow configuration and result types handed across the foreign
//! binding: flat copies of the client types, with the conversions between
//! them.

use vstd::prelude::*;

use crate::client::{HttpResponse, RequestConfig, TransferStats};

verus! {

/// Request configuration as the binding layer carries it.
#[derive(Debug, Clone)]
pub struct AkariRequestConfig {
    pub timeout_ms: u64,
    pub max_nack_rounds: Option<u32>,
    pub initial_request_retries: u32,
    pub sock_timeout_ms: u64,
    pub first_seq_timeout_ms: u64,
    pub agg_tag: bool,
    pub short_id: bool,
}

impl Default for AkariRequestConfig {
    /// The stock configuration, matching the client's defaults.
    fn default() -> (r: Self)
        ensures
            r.timeout_ms == 10000,
            r.max_nack_rounds == Some(3u32),
            r.initial_request_retries == 1,
            r.sock_timeout_ms == 1000,
            r.first_seq_timeout_ms == 500,
            r.agg_tag == true,
            r.short_id == false,
    {
        AkariRequestConfig {
            timeout_ms: 10000,
            max_nack_rounds: Some(3),
            initial_request_retries: 1,
            sock_timeout_ms: 1000,
            first_seq_timeout_ms: 500,
            agg_tag: true,
            short_id: false,
        }
    }
}

impl AkariRequestConfig {
    /// The client-side configuration this stands for: the same fields, with
    /// fragmentation protection on and the default payload bound.
    pub fn to_rust(&self) -> (r: RequestConfig)
        ensures
            r.timeout_ms == self.timeout_ms,
            r.max_nack_rounds == self.max_nack_rounds,
            r.initial_request_retries == self.initial_request_retries,
            r.sock_timeout_ms == self.sock_timeout_ms,
            r.first_seq_timeout_ms == self.first_seq_timeout_ms,
            r.df == true,
            r.agg_tag == self.agg_tag,
            r.payload_max is None,
            r.short_id == self.short_id,
    {
        RequestConfig {
            timeout_ms: self.timeout_ms,
            max_nack_rounds: self.max_nack_rounds,
            initial_request_retries: self.initial_request_retries,
            sock_timeout_ms: self.sock_timeout_ms,
            first_seq_timeout_ms: self.first_seq_timeout_ms,
            df: true,
            agg_tag: self.agg_tag,
            payload_max: None,
            short_id: self.short_id,
        }
    }
}

/// Transfer statistics as the binding layer carries them.
#[derive(Debug, Clone)]
pub struct AkariTransferStats {
    pub bytes_sent: u64,
    pub bytes_received: u64,
    pub nacks_sent: u32,
    pub request_retries: u32,
}

impl core::convert::From<TransferStats> for AkariTransferStats {
    fn from(s: TransferStats) -> (r: Self) {
        AkariTransferStats {
            bytes_sent: s.bytes_sent,
            bytes_received: s.bytes_received,
            nacks_sent: s.nacks_sent,
            request_retries: s.request_retries,
        }
    }
}

impl vstd::std_specs::convert::FromSpecImpl<TransferStats> for AkariTransferStats {
    open spec fn obeys_from_spec() -> bool {
        true
    }

    open spec fn from_spec(s: TransferStats) -> Self {
        AkariTransferStats {
            bytes_sent: s.bytes_sent,
            bytes_received: s.bytes_received,
            nacks_sent: s.nacks_sent,
            request_retries: s.request_retries,
        }
    }
}

/// An HTTP response as the binding layer carries it.
#[derive(Debug, Clone)]
pub struct AkariHttpResponse {
    pub status_code: u16,
    pub headers: Vec<(String, String)>,
    pub body: Vec<u8>,
    pub stats: AkariTransferStats,
}

impl core::convert::From<HttpResponse> for AkariHttpResponse {
    fn from(r: HttpResponse) -> (out: Self) {
        AkariHttpResponse {
            status_code: r.status_code,
            headers: r.headers,
            body: r.body,
            stats: AkariTransferStats {
                bytes_sent: r.stats.bytes_sent,
                bytes_received: r.stats.bytes_received,
                nacks_sent: r.stats.nacks_sent,
                request_retries: r.stats.request_retries,
            },
        }
    }
}

impl vstd::std_specs::convert::FromSpecImpl<HttpResponse> for AkariHttpResponse {
    open spec fn obeys_from_spec() -> bool {
        true
    }

    open spec fn from_spec(r: HttpResponse) -> Self {
        AkariHttpResponse {
            status_code: r.status_code,
            headers: r.headers,
            body: r.body,
            stats: AkariTransferStats {
                bytes_sent: r.stats.bytes_sent,
                bytes_received: r.stats.bytes_received,
                nacks_sent: r.stats.nacks_sent,
                request_retries: r.stats.request_retries,
            },
        }
    }
}

/// A stock request configuration.
pub fn default_request_config() -> (r: AkariRequestConfig)
    ensures
        r.timeout_ms == 10000,
        r.agg_tag == true,
{
    AkariRequestConfig::default()
}

} // verus!
