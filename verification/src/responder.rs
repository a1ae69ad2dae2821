//! The proxy-side responder: given what the HTTP oracle returned, serialize
//! the response headers, chunk the header block and the body into packets,
//! and answer NACKs with byte-identical retransmissions.

use vstd::prelude::*;
use vstd::slice::{slice_subrange, slice_to_vec};

use crate::bytes_be::{u16_be, u24_be, u32_be};
use crate::client::{bitmap_has, clone_bytes};
use crate::crypto::{compute_tag, tag_of};
use crate::encode_v3::{
    encode_resp_body_v3, encode_resp_body_v3_agg, encode_resp_head_cont_v3, encode_resp_head_v3,
    spec_encode_resp_body_v3, spec_encode_resp_body_v3_agg, spec_encode_resp_head_cont_v3, spec_encode_resp_head_v3,
};
use crate::error::AkariError;
use crate::hdrblock::{encode_header_block, spec_encode_header_block, view_pairs};
use crate::header_v3::{FLAG_AGG_TAG, FLAG_ENCRYPT, FLAG_SHORT_LEN};

verus! {

/// The chunks a byte string splits into: full chunks of `max` bytes, then
/// the remainder.
pub open spec fn spec_chunks(data: Seq<u8>, max: int) -> Seq<Seq<u8>>
    recommends
        max >= 1,
    decreases data.len(),
{
    if data.len() == 0 || max < 1 {
        Seq::empty()
    } else if data.len() <= max {
        seq![data]
    } else {
        seq![data.take(max)] + spec_chunks(data.skip(max), max)
    }
}

/// Every chunk is at most `max` bytes.
pub proof fn lemma_chunks_bounded(data: Seq<u8>, max: int)
    requires
        max >= 1,
    ensures
        forall|i: int|
            0 <= i < spec_chunks(data, max).len() ==> (#[trigger] spec_chunks(data, max)[i]).len() <= max,
    decreases data.len(),
{
    if data.len() > max {
        lemma_chunks_bounded(data.skip(max), max);
        assert forall|i: int|
            0 <= i < spec_chunks(data, max).len() implies (#[trigger] spec_chunks(data, max)[i]).len()
            <= max by {
            if i > 0 {
                assert(spec_chunks(data, max)[i] == spec_chunks(data.skip(max), max)[i - 1]);
            }
        }
    }
}

/// The chunks concatenate back to the data.
pub open spec fn concat_chunk_seq(s: Seq<Seq<u8>>) -> Seq<u8>
    decreases s.len(),
{
    if s.len() == 0 {
        Seq::empty()
    } else {
        s[0] + concat_chunk_seq(s.drop_first())
    }
}

/// Splitting and concatenating give back the data.
pub proof fn lemma_chunks_concat(data: Seq<u8>, max: int)
    requires
        max >= 1,
    ensures
        concat_chunk_seq(spec_chunks(data, max)) == data,
    decreases data.len(),
{
    if data.len() == 0 {
        assert(concat_chunk_seq(spec_chunks(data, max)) =~= data);
    } else if data.len() <= max {
        assert(spec_chunks(data, max) == seq![data]);
        assert(seq![data].drop_first() =~= Seq::<Seq<u8>>::empty());
        assert(concat_chunk_seq(seq![data]) == data + concat_chunk_seq(seq![data].drop_first()));
        assert(concat_chunk_seq(spec_chunks(data, max)) =~= data);
    } else {
        lemma_chunks_concat(data.skip(max), max);
        assert(spec_chunks(data, max).drop_first() =~= spec_chunks(data.skip(max), max));
        assert(concat_chunk_seq(spec_chunks(data, max)) =~= data.take(max) + data.skip(max));
        assert(data.take(max) + data.skip(max) =~= data);
    }
}

/// The header block's chunk list: an empty block still takes one (empty)
/// chunk, carried by the RespHead packet.
pub open spec fn spec_hdr_chunks(block: Seq<u8>, max: int) -> Seq<Seq<u8>> {
    if block.len() == 0 {
        seq![Seq::empty()]
    } else {
        spec_chunks(block, max)
    }
}

/// The view of a list of byte vectors.
pub open spec fn deep_bytes(v: Seq<Vec<u8>>) -> Seq<Seq<u8>> {
    v.map_values(|x: Vec<u8>| x@)
}

/// The datagram an encoder yielded, empty where it refused; the responder's
/// contracts rule the refusals out.
pub open spec fn ok_bytes(r: Result<Seq<u8>, AkariError>) -> Seq<u8> {
    match r {
        Ok(d) => d,
        Err(_) => Seq::empty(),
    }
}

/// Header packet `k` of a response: the RespHead for index 0, a
/// RespHeadCont for each later index.
pub open spec fn spec_head_packet(
    status_code: u16,
    block: Seq<u8>,
    body_len: u32,
    payload_max: int,
    k: int,
    seq_total: u16,
    flags: u8,
    message_id: u64,
    psk: Seq<u8>,
) -> Seq<u8> {
    let hchunks = spec_hdr_chunks(block, payload_max);
    if k == 0 {
        ok_bytes(
            spec_encode_resp_head_v3(
                status_code,
                hchunks[0],
                body_len,
                hchunks.len() as u8,
                0,
                seq_total,
                flags,
                message_id,
                psk,
            ),
        )
    } else {
        ok_bytes(
            spec_encode_resp_head_cont_v3(hchunks[k], k as u8, hchunks.len() as u8, flags, message_id, psk),
        )
    }
}

/// Body packet `s` of a response. In aggregate mode the final packet
/// carries the aggregate tag over the whole body; otherwise every packet
/// has its per-packet tag.
pub open spec fn spec_body_packet(
    body: Seq<u8>,
    payload_max: int,
    s: int,
    flags: u8,
    message_id: u64,
    psk: Seq<u8>,
) -> Seq<u8> {
    let bchunks = spec_chunks(body, payload_max);
    let seq_total = bchunks.len() as u16;
    if flags & FLAG_AGG_TAG != 0 && flags & FLAG_ENCRYPT == 0 {
        let tag = if s == bchunks.len() - 1 {
            Some(tag_of(psk, body))
        } else {
            None
        };
        ok_bytes(spec_encode_resp_body_v3_agg(bchunks[s], s as u16, seq_total, flags, message_id, psk, tag))
    } else {
        ok_bytes(spec_encode_resp_body_v3(bchunks[s], s as u16, seq_total, flags, message_id, psk))
    }
}

/// The packets of one response, retained for retransmission: header packets
/// indexed by hdr_idx, body packets indexed by seq.
pub struct ResponsePackets {
    pub head: Vec<Vec<u8>>,
    pub body: Vec<Vec<u8>>,
}

/// Split a byte string into chunks of at most `max` bytes.
pub fn split_chunks(data: &[u8], max: usize) -> (r: Vec<Vec<u8>>)
    requires
        max >= 1,
    ensures
        deep_bytes(r@) == spec_chunks(data@, max as int),
{
    let mut out: Vec<Vec<u8>> = Vec::new();
    let mut off: usize = 0;
    proof {
        assert(data@.skip(0) =~= data@);
        assert(deep_bytes(out@) + spec_chunks(data@, max as int) =~= spec_chunks(data@, max as int));
    }
    loop
        invariant
            max >= 1,
            off <= data@.len(),
            deep_bytes(out@) + spec_chunks(data@.skip(off as int), max as int) == spec_chunks(
                data@,
                max as int,
            ),
        ensures
            deep_bytes(out@) == spec_chunks(data@, max as int),
        decreases data@.len() - off,
    {
        if off >= data.len() {
            proof {
                assert(data@.skip(off as int) =~= Seq::<u8>::empty());
                assert(deep_bytes(out@) =~= spec_chunks(data@, max as int));
            }
            break ;
        }
        let ghost rest = data@.skip(off as int);
        let ghost prev_off = off as int;
        let end = if data.len() - off <= max {
            data.len()
        } else {
            off + max
        };
        let piece = slice_to_vec(slice_subrange(data, off, end));
        let ghost old_out = out@;
        out.push(piece);
        off = end;
        proof {
            if rest.len() <= max as int {
                assert(data@.subrange(prev_off, end as int) =~= rest);
                assert(deep_bytes(out@) =~= deep_bytes(old_out) + seq![rest]);
                assert(spec_chunks(rest, max as int) == seq![rest]);
                assert(data@.skip(off as int) =~= Seq::<u8>::empty());
                assert(deep_bytes(out@) + spec_chunks(data@.skip(off as int), max as int) =~= spec_chunks(
                    data@,
                    max as int,
                ));
            } else {
                assert(data@.subrange(prev_off, end as int) =~= rest.take(max as int));
                assert(deep_bytes(out@) =~= deep_bytes(old_out) + seq![rest.take(max as int)]);
                assert(rest.skip(max as int) =~= data@.skip(off as int));
                assert(deep_bytes(out@) + spec_chunks(data@.skip(off as int), max as int) =~= spec_chunks(
                    data@,
                    max as int,
                ));
            }
        }
    }
    out
}

/// Build every packet of a response: one RespHead carrying the first
/// header-block fragment, a RespHeadCont for each further fragment, and the
/// body chunked into RespBody packets, aggregate-tagged when the flags ask
/// for it. Refused only when the header block needs more than 255 fragments
/// or the body more than 65535 chunks.
pub fn build_response_packets(
    status_code: u16,
    headers: &Vec<(String, String)>,
    body: &Vec<u8>,
    payload_max: usize,
    flags: u8,
    message_id: u64,
    psk: &[u8],
) -> (r: Result<ResponsePackets, AkariError>)
    requires
        1 <= payload_max <= 0xFF00,
        body@.len() < 0x100000000,
        forall|i: int|
            0 <= i < headers@.len() ==> vstd::utf8::encode_utf8(#[trigger] headers@[i].0@).len() <= 0xFF
                && vstd::utf8::encode_utf8(headers@[i].1@).len() <= 0xFFFF,
    ensures
        ({
            let block = spec_encode_header_block(view_pairs(headers@));
            let hchunks = spec_hdr_chunks(block, payload_max as int);
            let bchunks = spec_chunks(body@, payload_max as int);
            &&& (r is Ok <==> hchunks.len() <= 255 && bchunks.len() <= 0xFFFF)
            &&& r matches Ok(p) ==> {
                &&& deep_bytes(p.head@).len() == hchunks.len()
                &&& forall|k: int|
                    0 <= k < hchunks.len() ==> deep_bytes(p.head@)[k] == spec_head_packet(
                        status_code,
                        block,
                        body@.len() as u32,
                        payload_max as int,
                        k,
                        bchunks.len() as u16,
                        flags,
                        message_id,
                        psk@,
                    )
                &&& deep_bytes(p.body@).len() == bchunks.len()
                &&& forall|s: int|
                    0 <= s < bchunks.len() ==> deep_bytes(p.body@)[s] == spec_body_packet(
                        body@,
                        payload_max as int,
                        s,
                        flags,
                        message_id,
                        psk@,
                    )
            }
        }),
{
    let ghost blockv = spec_encode_header_block(view_pairs(headers@));
    let block = encode_header_block(headers);
    let mut hchunks = split_chunks(block.as_slice(), payload_max);
    if hchunks.len() == 0 {
        hchunks.push(Vec::new());
        proof {
            assert(deep_bytes(hchunks@) =~= seq![Seq::<u8>::empty()]);
            assert(block@.len() == 0) by {
                if block@.len() > 0 {
                    assert(spec_chunks(block@, payload_max as int).len() > 0);
                }
            }
        }
    }
    proof {
        assert(deep_bytes(hchunks@) =~= spec_hdr_chunks(blockv, payload_max as int));
        lemma_chunks_bounded(block@, payload_max as int);
        assert forall|n: int|
            0 <= n < deep_bytes(hchunks@).len() implies (#[trigger] deep_bytes(hchunks@)[n]).len()
            <= payload_max by {
            if block@.len() == 0 {
            } else {
                assert(deep_bytes(hchunks@)[n] == spec_chunks(block@, payload_max as int)[n]);
            }
        }
    }
    if hchunks.len() > 255 {
        return Err(AkariError::PayloadTooLarge(block.len()));
    }
    let bchunks = split_chunks(body.as_slice(), payload_max);
    proof {
        lemma_chunks_bounded(body@, payload_max as int);
        assert forall|n: int|
            0 <= n < deep_bytes(bchunks@).len() implies (#[trigger] deep_bytes(bchunks@)[n]).len()
            <= payload_max by {
            assert(deep_bytes(bchunks@)[n] == spec_chunks(body@, payload_max as int)[n]);
        }
    }
    if bchunks.len() > 0xFFFF {
        return Err(AkariError::PayloadTooLarge(body.len()));
    }
    let hdr_total: u8 = hchunks.len() as u8;
    let seq_total: u16 = bchunks.len() as u16;
    let agg_mode = flags & FLAG_AGG_TAG != 0 && flags & FLAG_ENCRYPT == 0;

    let mut head: Vec<Vec<u8>> = Vec::new();
    let first = match encode_resp_head_v3(
        status_code,
        block.len(),
        hchunks[0].as_slice(),
        body.len() as u32,
        hdr_total,
        0,
        seq_total,
        flags,
        message_id,
        psk,
    ) {
        Ok(d) => d,
        Err(e) => {
            proof {
                let chunk = deep_bytes(hchunks@)[0];
                let len_field = if flags & FLAG_SHORT_LEN != 0 {
                    u24_be(body@.len() as u32)
                } else {
                    u32_be(body@.len() as u32)
                };
                let pl = u16_be(status_code) + len_field + seq![hdr_total, 0u8] + chunk;
                assert(pl.len() <= 0xFF08);
                assert(false);
            }
            return Err(e);
        },
    };
    head.push(first);
    let mut k: usize = 1;
    while k < hchunks.len()
        invariant
            1 <= k <= hchunks@.len(),
            1 <= hchunks@.len() <= 255,
            bchunks@.len() <= 0xFFFF,
            hdr_total == hchunks@.len(),
            seq_total == bchunks@.len(),
            deep_bytes(hchunks@) == spec_hdr_chunks(blockv, payload_max as int),
            bchunks@.map_values(|x: Vec<u8>| x@) == spec_chunks(body@, payload_max as int),
            payload_max <= 0xFF00,
            body@.len() < 0x100000000,
            head@.len() == k,
            forall|n: int|
                0 <= n < k ==> deep_bytes(head@)[n] == spec_head_packet(
                    status_code,
                    blockv,
                    body@.len() as u32,
                    payload_max as int,
                    n,
                    bchunks@.len() as u16,
                    flags,
                    message_id,
                    psk@,
                ),
            forall|n: int|
                0 <= n < deep_bytes(hchunks@).len() ==> (#[trigger] deep_bytes(hchunks@)[n]).len()
                    <= payload_max,
        decreases hchunks@.len() - k,
    {
        let ghost old_head = head@;
        let cont = match encode_resp_head_cont_v3(
            hchunks[k].as_slice(),
            k as u8,
            hdr_total,
            flags,
            message_id,
            psk,
        ) {
            Ok(d) => d,
            Err(e) => {
                proof {
                    let chunk = deep_bytes(hchunks@)[k as int];
                    let pl = seq![hdr_total, k as u8] + chunk;
                    assert(pl.len() <= 0xFF02);
                    assert(false);
                }
                return Err(e);
            },
        };
        head.push(cont);
        k = k + 1;
        proof {
            assert(deep_bytes(head@) =~= deep_bytes(old_head) + seq![deep_bytes(head@)[k - 1]]);
        }
    }

    let agg = if agg_mode && bchunks.len() > 0 {
        match compute_tag(psk, body.as_slice()) {
            Ok(t) => Some(t),
            Err(e) => {
                return Err(e);
            },
        }
    } else {
        None
    };

    let mut body_packets: Vec<Vec<u8>> = Vec::new();
    let mut s: usize = 0;
    while s < bchunks.len()
        invariant
            s <= bchunks@.len(),
            bchunks@.len() <= 0xFFFF,
            seq_total == bchunks@.len(),
            deep_bytes(bchunks@) == spec_chunks(body@, payload_max as int),
            payload_max <= 0xFF00,
            body@.len() < 0x100000000,
            agg_mode == (flags & FLAG_AGG_TAG != 0 && flags & FLAG_ENCRYPT == 0),
            agg matches Some(t) ==> t@ == tag_of(psk@, body@),
            agg is Some <==> (agg_mode && bchunks@.len() > 0),
            agg matches Some(t) ==> t@.len() == 16,
            body_packets@.len() == s,
            forall|n: int|
                0 <= n < s ==> deep_bytes(body_packets@)[n] == spec_body_packet(
                    body@,
                    payload_max as int,
                    n,
                    flags,
                    message_id,
                    psk@,
                ),
            forall|n: int|
                0 <= n < deep_bytes(bchunks@).len() ==> (#[trigger] deep_bytes(bchunks@)[n]).len()
                    <= payload_max,
        decreases bchunks@.len() - s,
    {
        let ghost old_body_packets = body_packets@;
        let packet = if agg_mode {
            let tag_arg: Option<&[u8]> = if s == bchunks.len() - 1 {
                match &agg {
                    Some(t) => Some(t.as_slice()),
                    None => None,
                }
            } else {
                None
            };
            match encode_resp_body_v3_agg(
                bchunks[s].as_slice(),
                s as u16,
                seq_total,
                flags,
                message_id,
                psk,
                tag_arg,
            ) {
                Ok(d) => d,
                Err(e) => {
                    proof {
                        assert(deep_bytes(bchunks@)[s as int] == bchunks@[s as int]@);
                        assert(deep_bytes(bchunks@)[s as int].len() <= payload_max);
                        assert(false);
                    }
                    return Err(e);
                },
            }
        } else {
            match encode_resp_body_v3(bchunks[s].as_slice(), s as u16, seq_total, flags, message_id, psk) {
                Ok(d) => d,
                Err(e) => {
                    proof {
                        assert(deep_bytes(bchunks@)[s as int] == bchunks@[s as int]@);
                        assert(deep_bytes(bchunks@)[s as int].len() <= payload_max);
                        assert(false);
                    }
                    return Err(e);
                },
            }
        };
        body_packets.push(packet);
        s = s + 1;
        proof {
            assert(deep_bytes(body_packets@) =~= deep_bytes(old_body_packets) + seq![
                deep_bytes(body_packets@)[s - 1],
            ]);
        }
    }
    Ok(ResponsePackets { head, body: body_packets })
}

/// The packets a bitmap selects: those whose index bit is set, in ascending
/// index order, byte-identical to the originals.
pub open spec fn spec_select(packets: Seq<Seq<u8>>, bm: Seq<u8>, n: int) -> Seq<Seq<u8>>
    decreases n,
{
    if n <= 0 {
        Seq::empty()
    } else {
        spec_select(packets, bm, n - 1) + if bitmap_has(bm, n - 1) {
            seq![packets[n - 1]]
        } else {
            Seq::empty()
        }
    }
}

/// Select the retained packets a NACK bitmap asks to have again.
pub fn select_by_bitmap(packets: &Vec<Vec<u8>>, bitmap: &[u8]) -> (r: Vec<Vec<u8>>)
    ensures
        deep_bytes(r@) == spec_select(deep_bytes(packets@), bitmap@, packets@.len() as int),
{
    let mut out: Vec<Vec<u8>> = Vec::new();
    let mut i: usize = 0;
    proof {
        assert(deep_bytes(out@) =~= spec_select(deep_bytes(packets@), bitmap@, 0));
    }
    while i < packets.len()
        invariant
            i <= packets@.len(),
            deep_bytes(out@) == spec_select(deep_bytes(packets@), bitmap@, i as int),
        decreases packets@.len() - i,
    {
        let byte_idx = i / 8;
        let wanted = byte_idx < bitmap.len() && (bitmap[byte_idx] & (1u8 << ((i % 8) as u8))) != 0;
        assert(wanted == bitmap_has(bitmap@, i as int));
        if wanted {
            let copy = clone_bytes(&packets[i]);
            let ghost old_out = out@;
            out.push(copy);
            proof {
                assert(deep_bytes(out@) =~= deep_bytes(old_out) + seq![deep_bytes(packets@)[i as int]]);
            }
        }
        i = i + 1;
        proof {
            assert(deep_bytes(out@) =~= spec_select(deep_bytes(packets@), bitmap@, i as int));
        }
    }
    out
}

} // verus!
