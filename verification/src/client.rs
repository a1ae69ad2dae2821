//! Client-side state: request configuration, transfer statistics, the
//! response accumulator, and the NACK bitmap construction.

use vstd::prelude::*;

use crate::bytes_be::push_bytes;
use crate::hdrblock::{decode_header_block, spec_header_entries, view_pairs};

verus! {

/// Configuration for one request.
#[derive(Debug, Clone)]
pub struct RequestConfig {
    /// Overall timeout in milliseconds; 0 waits indefinitely.
    pub timeout_ms: u64,
    /// Cap on NACK rounds; None is unlimited.
    pub max_nack_rounds: Option<u32>,
    /// Request retransmissions before any response is seen.
    pub initial_request_retries: u32,
    /// Socket receive timeout in milliseconds.
    pub sock_timeout_ms: u64,
    /// Wait for the first response packet before retrying.
    pub first_seq_timeout_ms: u64,
    /// Ask the transport not to fragment.
    pub df: bool,
    /// Request an aggregate tag over the response body.
    pub agg_tag: bool,
    /// Upper bound on per-packet payload; None means the default.
    pub payload_max: Option<u32>,
    /// Carry the message id in 16 bits.
    pub short_id: bool,
}

impl Default for RequestConfig {
    /// The stock configuration: a 10 s deadline, three NACK rounds, one
    /// request retry, a 1 s socket timeout, and aggregate tagging on.
    fn default() -> (r: Self)
        ensures
            r.timeout_ms == 10000,
            r.max_nack_rounds == Some(3u32),
            r.initial_request_retries == 1,
            r.sock_timeout_ms == 1000,
            r.first_seq_timeout_ms == 500,
            r.df == true,
            r.agg_tag == true,
            r.payload_max is None,
            r.short_id == false,
    {
        RequestConfig {
            timeout_ms: 10000,
            max_nack_rounds: Some(3),
            initial_request_retries: 1,
            sock_timeout_ms: 1000,
            first_seq_timeout_ms: 500,
            df: true,
            agg_tag: true,
            payload_max: None,
            short_id: false,
        }
    }
}

/// Transfer statistics for one request.
#[derive(Debug, Clone)]
pub struct TransferStats {
    pub bytes_sent: u64,
    pub bytes_received: u64,
    pub nacks_sent: u32,
    pub request_retries: u32,
}

impl Default for TransferStats {
    /// All counters start at zero.
    fn default() -> (r: Self)
        ensures
            r.bytes_sent == 0,
            r.bytes_received == 0,
            r.nacks_sent == 0,
            r.request_retries == 0,
    {
        TransferStats { bytes_sent: 0, bytes_received: 0, nacks_sent: 0, request_retries: 0 }
    }
}

/// An assembled HTTP response from the remote proxy.
#[derive(Debug, Clone)]
pub struct HttpResponse {
    pub status_code: u16,
    pub headers: Vec<(String, String)>,
    pub body: Vec<u8>,
    pub stats: TransferStats,
}

/// Mathematical state of a response accumulator: the chunk stores are
/// sequences indexed by chunk number, holding what has arrived so far.
pub struct AccModel {
    pub message_id: u64,
    pub body: Seq<Option<Seq<u8>>>,
    pub body_total: Option<u16>,
    pub status: Option<u16>,
    pub body_len: Option<u32>,
    pub hdrs: Seq<Option<Seq<u8>>>,
    pub hdr_total: Option<u8>,
    pub agg_tag: Option<Seq<u8>>,
}

/// The view of a chunk store.
pub open spec fn chunks_view(v: Seq<Option<Vec<u8>>>) -> Seq<Option<Seq<u8>>> {
    Seq::new(
        v.len(),
        |i: int|
            match v[i] {
                Some(c) => Some(c@),
                None => None,
            },
    )
}

/// Storing a chunk at an index: pad with absent entries up to the index,
/// then set it. Delivering a chunk twice overwrites in place.
pub open spec fn spec_insert_chunk(s: Seq<Option<Seq<u8>>>, idx: int, chunk: Seq<u8>) -> Seq<Option<Seq<u8>>> {
    let padded = if idx < s.len() {
        s
    } else {
        s + Seq::new((idx + 1 - s.len()) as nat, |j: int| None)
    };
    padded.update(idx, Some(chunk))
}

/// How many chunks a store holds.
pub open spec fn count_some(s: Seq<Option<Seq<u8>>>) -> int
    decreases s.len(),
{
    if s.len() == 0 {
        0
    } else {
        count_some(s.drop_last()) + if s.last() is Some {
            1int
        } else {
            0int
        }
    }
}

/// The concatenation of the chunks a store holds, in index order.
pub open spec fn spec_assemble_chunks(s: Seq<Option<Seq<u8>>>) -> Seq<u8>
    decreases s.len(),
{
    if s.len() == 0 {
        Seq::empty()
    } else {
        spec_assemble_chunks(s.drop_last()) + match s.last() {
            Some(c) => c,
            None => Seq::empty(),
        }
    }
}

/// The fresh accumulator state for a message id.
pub open spec fn spec_new_acc(message_id: u64) -> AccModel {
    AccModel {
        message_id,
        body: Seq::empty(),
        body_total: None,
        status: None,
        body_len: None,
        hdrs: Seq::empty(),
        hdr_total: None,
        agg_tag: None,
    }
}

/// What a RespHead packet does to the accumulator: record status, declared
/// body length, both totals, and store its header chunk.
pub open spec fn spec_add_head(m: AccModel, p: crate::payload::SpecRespHeadPayloadV3) -> AccModel {
    AccModel {
        status: Some(p.status_code),
        body_len: Some(p.body_len),
        body_total: Some(p.seq_total_body),
        hdr_total: Some(p.hdr_chunks),
        hdrs: spec_insert_chunk(m.hdrs, p.hdr_idx as int, p.header_block),
        ..m
    }
}

/// What a RespHeadCont packet does to the accumulator: record the header
/// total and store its chunk.
pub open spec fn spec_add_head_cont(m: AccModel, hdr_idx: u8, hdr_chunks: u8, block: Seq<u8>) -> AccModel {
    AccModel { hdr_total: Some(hdr_chunks), hdrs: spec_insert_chunk(m.hdrs, hdr_idx as int, block), ..m }
}

/// What a RespBody packet does to the accumulator: store its chunk, prefer
/// its nonzero seq_total over the header's, and keep an aggregate tag when
/// it carries one.
pub open spec fn spec_add_body(
    m: AccModel,
    p: crate::payload::SpecRespBodyPayloadV3,
    seq_total_from_header: Option<u16>,
) -> AccModel {
    AccModel {
        body: spec_insert_chunk(m.body, p.seq as int, p.chunk),
        body_total: if p.seq_total > 0 {
            Some(p.seq_total)
        } else if seq_total_from_header is Some {
            seq_total_from_header
        } else {
            m.body_total
        },
        agg_tag: match p.agg_tag {
            Some(t) => Some(t),
            None => m.agg_tag,
        },
        ..m
    }
}

/// Header reassembly is complete once at least hdr_total chunks are stored.
pub open spec fn spec_header_complete(m: AccModel) -> bool {
    match m.hdr_total {
        Some(total) => count_some(m.hdrs) >= total,
        None => false,
    }
}

/// Body reassembly is complete once at least body_total chunks are stored.
pub open spec fn spec_body_complete(m: AccModel) -> bool {
    match m.body_total {
        Some(total) => count_some(m.body) >= total,
        None => false,
    }
}

/// The indices below `n` whose chunk is still absent, in ascending order.
pub open spec fn spec_missing_below(s: Seq<Option<Seq<u8>>>, n: int) -> Seq<u16>
    recommends
        n <= 0x10000,
    decreases n,
{
    if n <= 0 {
        Seq::empty()
    } else {
        spec_missing_below(s, n - 1) + if n - 1 < s.len() && s[n - 1] is Some {
            Seq::empty()
        } else {
            seq![(n - 1) as u16]
        }
    }
}

/// Client-side accumulator for the packets of one response.
pub struct ResponseAccumulator {
    pub message_id: u64,
    pub body_chunks: Vec<Option<Vec<u8>>>,
    pub body_seq_total: Option<u16>,
    pub status_code: Option<u16>,
    pub body_len: Option<u32>,
    pub hdr_chunks: Vec<Option<Vec<u8>>>,
    pub hdr_total: Option<u8>,
    pub agg_tag: Option<Vec<u8>>,
}

impl View for ResponseAccumulator {
    type V = AccModel;

    open spec fn view(&self) -> AccModel {
        AccModel {
            message_id: self.message_id,
            body: chunks_view(self.body_chunks@),
            body_total: self.body_seq_total,
            status: self.status_code,
            body_len: self.body_len,
            hdrs: chunks_view(self.hdr_chunks@),
            hdr_total: self.hdr_total,
            agg_tag: match self.agg_tag {
                Some(t) => Some(t@),
                None => None,
            },
        }
    }
}

/// Copy a byte vector.
pub(crate) fn clone_bytes(v: &Vec<u8>) -> (r: Vec<u8>)
    ensures
        r@ == v@,
{
    let mut out: Vec<u8> = Vec::new();
    push_bytes(&mut out, v.as_slice());
    assert(out@ =~= v@);
    out
}

/// Store a chunk at an index, growing the store as needed.
fn insert_chunk(v: &mut Vec<Option<Vec<u8>>>, idx: usize, chunk: Vec<u8>)
    ensures
        chunks_view(final(v)@) == spec_insert_chunk(chunks_view(old(v)@), idx as int, chunk@),
{
    let ghost orig = chunks_view(old(v)@);
    while v.len() <= idx
        invariant
            chunks_view(v@) == if orig.len() >= idx + 1 {
                orig
            } else if chunks_view(v@).len() <= idx {
                orig + Seq::new((chunks_view(v@).len() - orig.len()) as nat, |j: int| None::<Seq<u8>>)
            } else {
                orig + Seq::new((idx + 1 - orig.len()) as nat, |j: int| None::<Seq<u8>>)
            },
            v@.len() >= orig.len(),
        decreases idx + 1 - v@.len(),
    {
        let ghost before = chunks_view(v@);
        v.push(None);
        proof {
            assert(chunks_view(v@) =~= before + seq![None::<Seq<u8>>]);
            if orig.len() >= idx + 1 {
                assert(false);
            } else {
                assert(chunks_view(v@) =~= orig + Seq::new(
                    (chunks_view(v@).len() - orig.len()) as nat,
                    |j: int| None::<Seq<u8>>,
                ));
            }
        }
    }
    let ghost padded = chunks_view(v@);
    v[idx] = Some(chunk);
    proof {
        assert(chunks_view(v@) =~= padded.update(idx as int, Some(chunk@)));
        if idx < orig.len() {
            assert(padded =~= orig);
        } else {
            assert(padded =~= orig + Seq::new((idx + 1 - orig.len()) as nat, |j: int| None::<Seq<u8>>));
        }
        assert(chunks_view(v@) =~= spec_insert_chunk(orig, idx as int, chunk@));
    }
}

/// Count the chunks a store holds.
fn count_filled(v: &Vec<Option<Vec<u8>>>) -> (r: usize)
    ensures
        r == count_some(chunks_view(v@)),
{
    let mut count: usize = 0;
    let mut i: usize = 0;
    proof {
        assert(chunks_view(v@).take(0) =~= Seq::empty());
    }
    while i < v.len()
        invariant
            i <= v@.len(),
            count <= i,
            count == count_some(chunks_view(v@).take(i as int)),
        decreases v@.len() - i,
    {
        let ghost before = chunks_view(v@).take(i as int);
        if v[i].is_some() {
            count = count + 1;
        }
        i = i + 1;
        proof {
            let now = chunks_view(v@).take(i as int);
            assert(now.drop_last() =~= before);
            assert(now.last() == chunks_view(v@)[i - 1]);
        }
    }
    proof {
        assert(chunks_view(v@).take(v@.len() as int) =~= chunks_view(v@));
    }
    count
}

/// Concatenate the chunks a store holds, in index order.
fn concat_chunks(v: &Vec<Option<Vec<u8>>>) -> (r: Vec<u8>)
    ensures
        r@ == spec_assemble_chunks(chunks_view(v@)),
{
    let mut out: Vec<u8> = Vec::new();
    let mut i: usize = 0;
    proof {
        assert(chunks_view(v@).take(0) =~= Seq::empty());
        assert(out@ =~= spec_assemble_chunks(chunks_view(v@).take(0)));
    }
    while i < v.len()
        invariant
            i <= v@.len(),
            out@ == spec_assemble_chunks(chunks_view(v@).take(i as int)),
        decreases v@.len() - i,
    {
        let ghost before = chunks_view(v@).take(i as int);
        match &v[i] {
            Some(c) => {
                push_bytes(&mut out, c.as_slice());
            },
            None => {},
        }
        i = i + 1;
        proof {
            let now = chunks_view(v@).take(i as int);
            assert(now.drop_last() =~= before);
            assert(now.last() == chunks_view(v@)[i - 1]);
            assert(out@ =~= spec_assemble_chunks(now));
        }
    }
    proof {
        assert(chunks_view(v@).take(v@.len() as int) =~= chunks_view(v@));
    }
    out
}

impl ResponseAccumulator {
    /// A fresh accumulator for one message id.
    pub fn new(message_id: u64) -> (r: Self)
        ensures
            r@ == spec_new_acc(message_id),
    {
        let r = ResponseAccumulator {
            message_id,
            body_chunks: Vec::new(),
            body_seq_total: None,
            status_code: None,
            body_len: None,
            hdr_chunks: Vec::new(),
            hdr_total: None,
            agg_tag: None,
        };
        proof {
            assert(chunks_view(Seq::<Option<Vec<u8>>>::empty()) =~= Seq::<Option<Seq<u8>>>::empty());
            assert(r@ =~= spec_new_acc(message_id));
        }
        r
    }

    /// Record a RespHead packet.
    pub fn add_head(&mut self, payload: &crate::payload::RespHeadPayloadV3)
        ensures
            final(self)@ == spec_add_head(old(self)@, payload@),
    {
        self.status_code = Some(payload.status_code);
        self.body_len = Some(payload.body_len);
        self.body_seq_total = Some(payload.seq_total_body);
        self.hdr_total = Some(payload.hdr_chunks);
        let chunk = clone_bytes(&payload.header_block);
        insert_chunk(&mut self.hdr_chunks, payload.hdr_idx as usize, chunk);
        assert(final(self)@ =~= spec_add_head(old(self)@, payload@));
    }

    /// Record a RespHeadCont packet.
    pub fn add_head_cont(&mut self, hdr_idx: u8, hdr_chunks: u8, header_block: Vec<u8>)
        ensures
            final(self)@ == spec_add_head_cont(old(self)@, hdr_idx, hdr_chunks, header_block@),
    {
        self.hdr_total = Some(hdr_chunks);
        insert_chunk(&mut self.hdr_chunks, hdr_idx as usize, header_block);
        assert(final(self)@ =~= spec_add_head_cont(old(self)@, hdr_idx, hdr_chunks, header_block@));
    }

    /// Record a RespBody packet, falling back to the header's seq_total when
    /// the payload carries zero.
    pub fn add_body(&mut self, payload: &crate::payload::RespBodyPayloadV3, seq_total_from_header: Option<u16>)
        ensures
            final(self)@ == spec_add_body(old(self)@, payload@, seq_total_from_header),
    {
        let chunk = clone_bytes(&payload.chunk);
        insert_chunk(&mut self.body_chunks, payload.seq as usize, chunk);
        if payload.seq_total > 0 {
            self.body_seq_total = Some(payload.seq_total);
        } else {
            match seq_total_from_header {
                Some(st) => {
                    self.body_seq_total = Some(st);
                },
                None => {},
            }
        }
        match &payload.agg_tag {
            Some(tag) => {
                self.agg_tag = Some(clone_bytes(tag));
            },
            None => {},
        }
        assert(final(self)@ =~= spec_add_body(old(self)@, payload@, seq_total_from_header));
    }

    /// Whether every header chunk has arrived.
    pub fn header_complete(&self) -> (r: bool)
        ensures
            r == spec_header_complete(self@),
    {
        match self.hdr_total {
            Some(total) => count_filled(&self.hdr_chunks) >= total as usize,
            None => false,
        }
    }

    /// Whether every body chunk has arrived.
    pub fn body_complete(&self) -> (r: bool)
        ensures
            r == spec_body_complete(self@),
    {
        match self.body_seq_total {
            Some(total) => count_filled(&self.body_chunks) >= total as usize,
            None => false,
        }
    }

    /// The header indices still missing, ascending.
    pub fn missing_header_indices(&self) -> (r: Vec<u8>)
        ensures
            match self@.hdr_total {
                Some(total) => r@.map_values(|x: u8| x as u16) == spec_missing_below(self@.hdrs, total as int),
                None => r@ == Seq::<u8>::empty(),
            },
    {
        let mut missing: Vec<u8> = Vec::new();
        match self.hdr_total {
            Some(total) => {
                let mut i: usize = 0;
                proof {
                    assert(missing@.map_values(|x: u8| x as u16) =~= spec_missing_below(self@.hdrs, 0));
                }
                while i < total as usize
                    invariant
                        i <= total,
                        missing@.map_values(|x: u8| x as u16) == spec_missing_below(self@.hdrs, i as int),
                        self@.hdrs == chunks_view(self.hdr_chunks@),
                    decreases total as int - i,
                {
                    let filled = i < self.hdr_chunks.len() && self.hdr_chunks[i].is_some();
                    if !filled {
                        missing.push(i as u8);
                    }
                    i = i + 1;
                    proof {
                        assert(missing@.map_values(|x: u8| x as u16) =~= spec_missing_below(
                            self@.hdrs,
                            i as int,
                        ));
                    }
                }
                missing
            },
            None => missing,
        }
    }

    /// The body sequence numbers still missing, ascending.
    pub fn missing_body_seqs(&self) -> (r: Vec<u16>)
        ensures
            match self@.body_total {
                Some(total) => r@ == spec_missing_below(self@.body, total as int),
                None => r@ == Seq::<u16>::empty(),
            },
    {
        let mut missing: Vec<u16> = Vec::new();
        match self.body_seq_total {
            Some(total) => {
                let mut i: usize = 0;
                proof {
                    assert(missing@ =~= spec_missing_below(self@.body, 0));
                }
                while i < total as usize
                    invariant
                        i <= total,
                        missing@ == spec_missing_below(self@.body, i as int),
                        self@.body == chunks_view(self.body_chunks@),
                    decreases total as int - i,
                {
                    let filled = i < self.body_chunks.len() && self.body_chunks[i].is_some();
                    if !filled {
                        missing.push(i as u16);
                    }
                    i = i + 1;
                    proof {
                        assert(missing@ =~= spec_missing_below(
                            self@.body,
                            i as int,
                        ));
                    }
                }
                missing
            },
            None => missing,
        }
    }

    /// The decoded response headers, once header reassembly is complete:
    /// the stored chunks concatenated in ascending index order, run through
    /// the header-block codec.
    pub fn assemble_headers(&self) -> (r: Option<Vec<(String, String)>>)
        ensures
            r is Some <==> spec_header_complete(self@),
            r matches Some(h) ==> view_pairs(h@) == spec_header_entries(spec_assemble_chunks(self@.hdrs)),
    {
        if !self.header_complete() {
            return None;
        }
        let combined = concat_chunks(&self.hdr_chunks);
        Some(decode_header_block(combined.as_slice()))
    }

    /// The reassembled body, once body reassembly is complete: the stored
    /// chunks concatenated in ascending sequence order.
    pub fn assemble_body(&self) -> (r: Option<Vec<u8>>)
        ensures
            r is Some <==> spec_body_complete(self@),
            r matches Some(b) ==> b@ == spec_assemble_chunks(self@.body),
    {
        if !self.body_complete() {
            return None;
        }
        Some(concat_chunks(&self.body_chunks))
    }
}

/// The bit a bitmap sets for index `8*i + j`: bit `j` of byte `i`, when the
/// index is missing.
pub open spec fn bitmap_term(missing: Seq<u16>, i: int, j: int) -> u8 {
    if 0 <= 8 * i + j <= 0xFFFF && missing.contains((8 * i + j) as u16) {
        1u8 << (j as u8)
    } else {
        0u8
    }
}

/// Byte `i` of a bitmap, built up bit by bit: the or of the terms for bits
/// below `j`.
pub open spec fn bitmap_byte_partial(missing: Seq<u16>, i: int, j: int) -> u8
    decreases j,
{
    if j <= 0 {
        0u8
    } else {
        bitmap_byte_partial(missing, i, j - 1) | bitmap_term(missing, i, j - 1)
    }
}

/// Byte `i` of the bitmap for a set of missing indices.
pub open spec fn spec_bitmap_byte(missing: Seq<u16>, i: int) -> u8 {
    bitmap_byte_partial(missing, i, 8)
}

/// The largest element of a nonempty sequence.
pub open spec fn spec_seq_max_u16(s: Seq<u16>) -> u16
    recommends
        s.len() > 0,
    decreases s.len(),
{
    if s.len() <= 1 {
        s[0]
    } else {
        let m = spec_seq_max_u16(s.drop_last());
        if s.last() > m {
            s.last()
        } else {
            m
        }
    }
}

/// The NACK bitmap for a set of missing indices: one byte per eight
/// indices up to the largest missing one, bit `k % 8` of byte `k / 8` set
/// exactly for the missing `k`. An empty set gives an empty bitmap.
pub open spec fn spec_bitmap(missing: Seq<u16>) -> Seq<u8> {
    if missing.len() == 0 {
        Seq::empty()
    } else {
        Seq::new((spec_seq_max_u16(missing) / 8 + 1) as nat, |i: int| spec_bitmap_byte(missing, i))
    }
}

/// Whether a bitmap marks index `k` as missing.
pub open spec fn bitmap_has(b: Seq<u8>, k: int) -> bool {
    0 <= k && k / 8 < b.len() && (b[k / 8] & (1u8 << ((k % 8) as u8))) != 0
}

/// The values of the eight single-bit masks.
proof fn lemma_shift_values()
    ensures
        1u8 << 0 == 1,
        1u8 << 1 == 2,
        1u8 << 2 == 4,
        1u8 << 3 == 8,
        1u8 << 4 == 16,
        1u8 << 5 == 32,
        1u8 << 6 == 64,
        1u8 << 7 == 128,
{
    assert(1u8 << 0 == 1 && 1u8 << 1 == 2 && 1u8 << 2 == 4 && 1u8 << 3 == 8 && 1u8 << 4 == 16 && 1u8 << 5
        == 32 && 1u8 << 6 == 64 && 1u8 << 7 == 128) by (bit_vector);
}

/// Bit `j` of a bitmap byte is set exactly when its term contributes.
proof fn lemma_bitmap_byte_bit(missing: Seq<u16>, i: int, j: int)
    requires
        0 <= j < 8,
    ensures
        ((spec_bitmap_byte(missing, i) & (1u8 << (j as u8))) != 0) <==> bitmap_term(missing, i, j) != 0,
{
    lemma_shift_values();
    let t0 = bitmap_term(missing, i, 0);
    let t1 = bitmap_term(missing, i, 1);
    let t2 = bitmap_term(missing, i, 2);
    let t3 = bitmap_term(missing, i, 3);
    let t4 = bitmap_term(missing, i, 4);
    let t5 = bitmap_term(missing, i, 5);
    let t6 = bitmap_term(missing, i, 6);
    let t7 = bitmap_term(missing, i, 7);
    assert(spec_bitmap_byte(missing, i) == ((((((((0u8 | t0) | t1) | t2) | t3) | t4) | t5) | t6) | t7))
        by {
        assert(bitmap_byte_partial(missing, i, 0) == 0u8);
        assert(bitmap_byte_partial(missing, i, 1) == bitmap_byte_partial(missing, i, 0) | t0);
        assert(bitmap_byte_partial(missing, i, 2) == bitmap_byte_partial(missing, i, 1) | t1);
        assert(bitmap_byte_partial(missing, i, 3) == bitmap_byte_partial(missing, i, 2) | t2);
        assert(bitmap_byte_partial(missing, i, 4) == bitmap_byte_partial(missing, i, 3) | t3);
        assert(bitmap_byte_partial(missing, i, 5) == bitmap_byte_partial(missing, i, 4) | t4);
        assert(bitmap_byte_partial(missing, i, 6) == bitmap_byte_partial(missing, i, 5) | t5);
        assert(bitmap_byte_partial(missing, i, 7) == bitmap_byte_partial(missing, i, 6) | t6);
        assert(bitmap_byte_partial(missing, i, 8) == bitmap_byte_partial(missing, i, 7) | t7);
    }
    let jb = j as u8;
    assert((t0 == 0 || t0 == 1) && (t1 == 0 || t1 == 2) && (t2 == 0 || t2 == 4) && (t3 == 0 || t3 == 8)
        && (t4 == 0 || t4 == 16) && (t5 == 0 || t5 == 32) && (t6 == 0 || t6 == 64) && (t7 == 0 || t7
        == 128));
    assert(((t0 == 0 || t0 == 1) && (t1 == 0 || t1 == 2) && (t2 == 0 || t2 == 4) && (t3 == 0 || t3 == 8)
        && (t4 == 0 || t4 == 16) && (t5 == 0 || t5 == 32) && (t6 == 0 || t6 == 64) && (t7 == 0 || t7
        == 128) && jb < 8) ==> ((((((((((0u8 | t0) | t1) | t2) | t3) | t4) | t5) | t6) | t7) & (1u8
        << jb)) != 0 <==> ((jb == 0 && t0 != 0) || (jb == 1 && t1 != 0) || (jb == 2 && t2 != 0) || (jb
        == 3 && t3 != 0) || (jb == 4 && t4 != 0) || (jb == 5 && t5 != 0) || (jb == 6 && t6 != 0) || (
    jb == 7 && t7 != 0)))) by (bit_vector);
}

/// Every element of a nonempty sequence is at most its maximum.
proof fn lemma_seq_max_u16_bound(s: Seq<u16>)
    requires
        s.len() > 0,
    ensures
        forall|k: int| 0 <= k < s.len() ==> s[k] <= spec_seq_max_u16(s),
    decreases s.len(),
{
    if s.len() > 1 {
        lemma_seq_max_u16_bound(s.drop_last());
        assert(forall|k: int|
            0 <= k < s.len() - 1 ==> s[k] == s.drop_last()[k] && s[k] <= spec_seq_max_u16(s.drop_last()));
    }
}

/// The law of the NACK bitmap: the bitmap built from a set of missing
/// indices marks exactly those indices — bit `k % 8` of byte `k / 8` is set
/// if and only if `k` is in the set.
pub proof fn lemma_bitmap_marks_exactly(missing: Seq<u16>, k: int)
    ensures
        bitmap_has(spec_bitmap(missing), k) <==> (0 <= k <= 0xFFFF && missing.contains(k as u16)),
{
    if missing.len() == 0 {
        assert(!bitmap_has(spec_bitmap(missing), k));
        assert(!missing.contains(k as u16));
    } else {
        let mx = spec_seq_max_u16(missing) as int;
        let b = spec_bitmap(missing);
        lemma_seq_max_u16_bound(missing);
        if 0 <= k {
            if k / 8 < b.len() {
                lemma_bitmap_byte_bit(missing, k / 8, k % 8);
                assert(8 * (k / 8) + k % 8 == k);
                assert(b[k / 8] == spec_bitmap_byte(missing, k / 8));
                assert(bitmap_has(b, k) <==> bitmap_term(missing, k / 8, k % 8) != 0);
                assert(bitmap_term(missing, k / 8, k % 8) != 0 <==> (k <= 0xFFFF && missing.contains(
                    k as u16,
                ))) by {
                    lemma_shift_values();
                }
            } else {
                assert(k / 8 >= mx / 8 + 1);
                assert(k > mx) by {
                    assert(k >= 8 * (mx / 8 + 1));
                }
                if 0 <= k <= 0xFFFF && missing.contains(k as u16) {
                    let w = choose|w: int| 0 <= w < missing.len() && missing[w] == k as u16;
                    assert(missing[w] <= spec_seq_max_u16(missing));
                    assert(false);
                }
            }
        }
    }
}

/// Whether a slice holds a value.
fn contains_u16(s: &[u16], v: u16) -> (r: bool)
    ensures
        r == s@.contains(v),
{
    let mut i: usize = 0;
    while i < s.len()
        invariant
            i <= s@.len(),
            forall|k: int| 0 <= k < i ==> s@[k] != v,
        decreases s@.len() - i,
    {
        if s[i] == v {
            return true;
        }
        i = i + 1;
    }
    false
}

/// The largest element of a nonempty slice.
fn max_u16(s: &[u16]) -> (r: u16)
    requires
        s@.len() > 0,
    ensures
        r == spec_seq_max_u16(s@),
{
    let mut m = s[0];
    let mut i: usize = 1;
    proof {
        assert(s@.take(1).len() == 1);
        assert(s@.take(1)[0] == s@[0]);
    }
    while i < s.len()
        invariant
            1 <= i <= s@.len(),
            m == spec_seq_max_u16(s@.take(i as int)),
        decreases s@.len() - i,
    {
        let ghost before = s@.take(i as int);
        if s[i] > m {
            m = s[i];
        }
        i = i + 1;
        proof {
            let now = s@.take(i as int);
            assert(now.drop_last() =~= before);
            assert(now.last() == s@[i - 1]);
        }
    }
    proof {
        assert(s@.take(s@.len() as int) =~= s@);
    }
    m
}

/// Build the NACK bitmap from the missing body sequence numbers.
pub fn build_missing_bitmap(missing: &[u16]) -> (r: Vec<u8>)
    ensures
        r@ == spec_bitmap(missing@),
{
    if missing.len() == 0 {
        let r: Vec<u8> = Vec::new();
        assert(r@ =~= spec_bitmap(missing@));
        return r;
    }
    let mx = max_u16(missing);
    let blen = (mx / 8) as usize + 1;
    let mut out: Vec<u8> = Vec::new();
    let mut i: usize = 0;
    while i < blen
        invariant
            i <= blen,
            blen == mx / 8 + 1,
            mx == spec_seq_max_u16(missing@),
            missing@.len() > 0,
            out@.len() == i,
            forall|n: int| 0 <= n < i ==> out@[n] == spec_bitmap_byte(missing@, n),
        decreases blen - i,
    {
        let mut byte: u8 = 0;
        let mut j: u8 = 0;
        while j < 8
            invariant
                j <= 8,
                i < blen,
                blen == mx / 8 + 1,
                byte == bitmap_byte_partial(missing@, i as int, j as int),
            decreases 8 - j,
        {
            let idx: usize = i * 8 + (j as usize);
            if idx <= 0xFFFF && contains_u16(missing, idx as u16) {
                byte = byte | (1u8 << j);
                assert(bitmap_term(missing@, i as int, j as int) == 1u8 << j);
            } else {
                assert(bitmap_term(missing@, i as int, j as int) == 0u8);
                assert(byte | 0u8 == byte) by (bit_vector);
            }
            j = j + 1;
        }
        out.push(byte);
        i = i + 1;
    }
    proof {
        assert(out@ =~= spec_bitmap(missing@));
    }
    out
}

/// Build the NACK bitmap from the missing header indices.
pub fn build_missing_hdr_bitmap(missing: &[u8]) -> (r: Vec<u8>)
    ensures
        r@ == spec_bitmap(missing@.map_values(|x: u8| x as u16)),
{
    let mut widened: Vec<u16> = Vec::new();
    let mut i: usize = 0;
    proof {
        assert(widened@ =~= missing@.take(0).map_values(|x: u8| x as u16));
    }
    while i < missing.len()
        invariant
            i <= missing@.len(),
            widened@ == missing@.take(i as int).map_values(|x: u8| x as u16),
        decreases missing@.len() - i,
    {
        widened.push(missing[i] as u16);
        i = i + 1;
        proof {
            assert(widened@ =~= missing@.take(i as int).map_values(|x: u8| x as u16));
        }
    }
    proof {
        assert(missing@.take(missing@.len() as int) =~= missing@);
    }
    build_missing_bitmap(widened.as_slice())
}


} // verus!
