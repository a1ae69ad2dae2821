//! The header-block compression scheme: a sequence of entries, each either
//! a static ID from the fixed table or a literal name, followed by a
//! length-prefixed value.

use vstd::prelude::*;
use vstd::string::StringExecFns;

use crate::bytes_be::u16_from_be;
use crate::textutil::{spec_u8_decimal, u8_decimal_string, utf8_lossy_of};

verus! {

/// The name a static header ID stands for, if the table defines it.
pub open spec fn spec_static_header_name(id: u8) -> Option<Seq<char>> {
    if id == 1 {
        Some("content-type"@)
    } else if id == 2 {
        Some("content-length"@)
    } else if id == 3 {
        Some("cache-control"@)
    } else if id == 4 {
        Some("etag"@)
    } else if id == 5 {
        Some("last-modified"@)
    } else if id == 6 {
        Some("date"@)
    } else if id == 7 {
        Some("server"@)
    } else if id == 8 {
        Some("content-encoding"@)
    } else if id == 9 {
        Some("accept-ranges"@)
    } else if id == 10 {
        Some("set-cookie"@)
    } else if id == 11 {
        Some("location"@)
    } else {
        None
    }
}

/// The name a header ID resolves to: the static table's entry, or the
/// assembled placeholder for an unknown ID.
pub open spec fn spec_header_name(id: u8) -> Seq<char> {
    match spec_static_header_name(id) {
        Some(n) => n,
        None => "x-unknown-"@ + spec_u8_decimal(id),
    }
}

/// Resolve a header ID to its name.
pub fn get_header_name(id: u8) -> (r: String)
    ensures
        r@ == spec_header_name(id),
{
    match id {
        1 => String::from_str("content-type"),
        2 => String::from_str("content-length"),
        3 => String::from_str("cache-control"),
        4 => String::from_str("etag"),
        5 => String::from_str("last-modified"),
        6 => String::from_str("date"),
        7 => String::from_str("server"),
        8 => String::from_str("content-encoding"),
        9 => String::from_str("accept-ranges"),
        10 => String::from_str("set-cookie"),
        11 => String::from_str("location"),
        _ => {
            let mut s = String::from_str("x-unknown-");
            let digits = u8_decimal_string(id);
            s.append(digits.as_str());
            s
        },
    }
}

/// The (name, value) pairs a header block decodes to. A malformed tail ends
/// the list; everything decoded before it is kept.
pub open spec fn spec_header_entries(block: Seq<u8>) -> Seq<(Seq<char>, Seq<char>)>
    decreases block.len(),
{
    if block.len() == 0 {
        Seq::empty()
    } else {
        let hid = block[0];
        if hid == 0 {
            if block.len() < 2 {
                Seq::empty()
            } else {
                let name_len = block[1] as int;
                if 2 + name_len > block.len() {
                    Seq::empty()
                } else {
                    let name = utf8_lossy_of(block.subrange(2, 2 + name_len));
                    if 4 + name_len > block.len() {
                        Seq::empty()
                    } else {
                        let val_len = u16_from_be(block[2 + name_len], block[3 + name_len]) as int;
                        if 4 + name_len + val_len > block.len() {
                            Seq::empty()
                        } else {
                            let value = utf8_lossy_of(block.subrange(4 + name_len, 4 + name_len + val_len));
                            seq![(name, value)] + spec_header_entries(block.skip(4 + name_len + val_len))
                        }
                    }
                }
            }
        } else {
            if block.len() < 3 {
                Seq::empty()
            } else {
                let val_len = u16_from_be(block[1], block[2]) as int;
                if 3 + val_len > block.len() {
                    Seq::empty()
                } else {
                    let value = utf8_lossy_of(block.subrange(3, 3 + val_len));
                    seq![(spec_header_name(hid), value)] + spec_header_entries(block.skip(3 + val_len))
                }
            }
        }
    }
}

/// The views of a vector of decoded (name, value) pairs.
pub open spec fn view_pairs(v: Seq<(String, String)>) -> Seq<(Seq<char>, Seq<char>)> {
    v.map_values(|p: (String, String)| (p.0@, p.1@))
}

/// Decode a header block into (name, value) pairs.
#[verifier::rlimit(100)]
#[verifier::spinoff_prover]
pub fn decode_header_block(block: &[u8]) -> (r: Vec<(String, String)>)
    ensures
        view_pairs(r@) == spec_header_entries(block@),
{
    let mut headers: Vec<(String, String)> = Vec::new();
    let mut pos: usize = 0;
    proof {
        assert(block@.skip(0) =~= block@);
        assert(view_pairs(headers@) + spec_header_entries(block@) =~= spec_header_entries(block@));
    }
    loop
        invariant
            pos <= block@.len(),
            view_pairs(headers@) + spec_header_entries(block@.skip(pos as int)) == spec_header_entries(block@),
        ensures
            view_pairs(headers@) == spec_header_entries(block@),
        decreases block@.len() - pos,
    {
        if pos >= block.len() {
            proof {
                assert(block@.skip(pos as int) =~= Seq::<u8>::empty());
                assert(view_pairs(headers@) =~= spec_header_entries(block@));
            }
            break ;
        }
        let remaining = block.len() - pos;
        let ghost tail = block@.skip(pos as int);
        proof {
            assert(tail.len() == remaining);
            assert forall|i: int| 0 <= i < tail.len() implies tail[i] == block@[pos + i] by {}
        }
        let hid = block[pos];
        if hid == 0 {
            if remaining < 2 {
                proof {
                    assert(spec_header_entries(tail) == Seq::<(Seq<char>, Seq<char>)>::empty());
                    assert(view_pairs(headers@) =~= spec_header_entries(block@));
                }
                break ;
            }
            let name_len = block[pos + 1] as usize;
            if remaining - 2 < name_len {
                proof {
                    assert(spec_header_entries(tail) == Seq::<(Seq<char>, Seq<char>)>::empty());
                    assert(view_pairs(headers@) =~= spec_header_entries(block@));
                }
                break ;
            }
            let name_bytes = vstd::slice::slice_subrange(block, pos + 2, pos + 2 + name_len);
            let name = crate::textutil::bytes_to_utf8_lossy(name_bytes);
            proof {
                assert(name_bytes@ =~= tail.subrange(2, 2 + name_len as int));
            }
            if remaining - 2 - name_len < 2 {
                proof {
                    assert(spec_header_entries(tail) == Seq::<(Seq<char>, Seq<char>)>::empty());
                    assert(view_pairs(headers@) =~= spec_header_entries(block@));
                }
                break ;
            }
            let val_len = crate::bytes_be::read_u16_be(block, pos + 2 + name_len) as usize;
            if remaining - 4 - name_len < val_len {
                proof {
                    assert(spec_header_entries(tail) == Seq::<(Seq<char>, Seq<char>)>::empty());
                    assert(view_pairs(headers@) =~= spec_header_entries(block@));
                }
                break ;
            }
            let val_bytes = vstd::slice::slice_subrange(
                block,
                pos + 4 + name_len,
                pos + 4 + name_len + val_len,
            );
            let value = crate::textutil::bytes_to_utf8_lossy(val_bytes);
            let ghost namev = name@;
            let ghost valuev = value@;
            let consumed = 4 + name_len + val_len;
            proof {
                assert(val_bytes@ =~= tail.subrange(4 + name_len as int, (4 + name_len + val_len) as int));
                assert(tail.skip(consumed as int) =~= block@.skip((pos + consumed) as int));
                assert(spec_header_entries(tail) == seq![(namev, valuev)] + spec_header_entries(
                    tail.skip(consumed as int),
                ));
            }
            let ghost old_headers = headers@;
            headers.push((name, value));
            pos = pos + consumed;
            proof {
                assert(view_pairs(headers@) =~= view_pairs(old_headers) + seq![(namev, valuev)]);
                assert(view_pairs(headers@) + spec_header_entries(block@.skip(pos as int))
                    =~= spec_header_entries(block@));
            }
        } else {
            if remaining < 3 {
                proof {
                    assert(spec_header_entries(tail) == Seq::<(Seq<char>, Seq<char>)>::empty());
                    assert(view_pairs(headers@) =~= spec_header_entries(block@));
                }
                break ;
            }
            let val_len = crate::bytes_be::read_u16_be(block, pos + 1) as usize;
            if remaining - 3 < val_len {
                proof {
                    assert(spec_header_entries(tail) == Seq::<(Seq<char>, Seq<char>)>::empty());
                    assert(view_pairs(headers@) =~= spec_header_entries(block@));
                }
                break ;
            }
            let val_bytes = vstd::slice::slice_subrange(block, pos + 3, pos + 3 + val_len);
            let value = crate::textutil::bytes_to_utf8_lossy(val_bytes);
            let name = get_header_name(hid);
            let ghost namev = name@;
            let ghost valuev = value@;
            let consumed = 3 + val_len;
            proof {
                assert(val_bytes@ =~= tail.subrange(3, (3 + val_len) as int));
                assert(tail.skip(consumed as int) =~= block@.skip((pos + consumed) as int));
                assert(spec_header_entries(tail) == seq![(namev, valuev)] + spec_header_entries(
                    tail.skip(consumed as int),
                ));
            }
            let ghost old_headers = headers@;
            headers.push((name, value));
            pos = pos + consumed;
            proof {
                assert(view_pairs(headers@) =~= view_pairs(old_headers) + seq![(namev, valuev)]);
                assert(view_pairs(headers@) + spec_header_entries(block@.skip(pos as int))
                    =~= spec_header_entries(block@));
            }
        }
    }
    headers
}

/// The static ID the table gives a header name, or 0 for a literal name.
pub open spec fn spec_static_id(name: Seq<char>) -> u8 {
    if name == "content-type"@ {
        1
    } else if name == "content-length"@ {
        2
    } else if name == "cache-control"@ {
        3
    } else if name == "etag"@ {
        4
    } else if name == "last-modified"@ {
        5
    } else if name == "date"@ {
        6
    } else if name == "server"@ {
        7
    } else if name == "content-encoding"@ {
        8
    } else if name == "accept-ranges"@ {
        9
    } else if name == "set-cookie"@ {
        10
    } else if name == "location"@ {
        11
    } else {
        0
    }
}

/// Two character sequences with the same UTF-8 encoding are the same.
pub proof fn lemma_encode_utf8_injective(a: Seq<char>, b: Seq<char>)
    requires
        vstd::utf8::encode_utf8(a) == vstd::utf8::encode_utf8(b),
    ensures
        a == b,
{
    broadcast use vstd::utf8::encode_utf8_decode_utf8;

    assert(vstd::utf8::decode_utf8(vstd::utf8::encode_utf8(a)) == a);
    assert(vstd::utf8::decode_utf8(vstd::utf8::encode_utf8(b)) == b);
}

/// Compare a name's bytes to one table entry's.
fn name_is(nb: &[u8], name: Ghost<Seq<char>>, entry: &str) -> (r: bool)
    requires
        nb@ == vstd::utf8::encode_utf8(name@),
    ensures
        r == (name@ == entry@),
{
    let r = crate::crypto::ct_bytes_eq(nb, entry.as_bytes());
    proof {
        if r {
            lemma_encode_utf8_injective(name@, entry@);
        }
    }
    r
}

/// The static ID for a header name, or 0 when the table has none.
pub fn static_header_id(name: &str) -> (r: u8)
    ensures
        r == spec_static_id(name@),
{
    let nb = name.as_bytes();
    let ghost n = name@;
    if name_is(nb, Ghost(n), "content-type") {
        1
    } else if name_is(nb, Ghost(n), "content-length") {
        2
    } else if name_is(nb, Ghost(n), "cache-control") {
        3
    } else if name_is(nb, Ghost(n), "etag") {
        4
    } else if name_is(nb, Ghost(n), "last-modified") {
        5
    } else if name_is(nb, Ghost(n), "date") {
        6
    } else if name_is(nb, Ghost(n), "server") {
        7
    } else if name_is(nb, Ghost(n), "content-encoding") {
        8
    } else if name_is(nb, Ghost(n), "accept-ranges") {
        9
    } else if name_is(nb, Ghost(n), "set-cookie") {
        10
    } else if name_is(nb, Ghost(n), "location") {
        11
    } else {
        0
    }
}

/// The wire bytes of one header entry: a static ID or a length-prefixed
/// literal name, then the length-prefixed value.
pub open spec fn spec_encode_header_entry(name: Seq<char>, value: Seq<char>) -> Seq<u8> {
    let nb = vstd::utf8::encode_utf8(name);
    let vb = vstd::utf8::encode_utf8(value);
    let id = spec_static_id(name);
    if id != 0 {
        seq![id] + crate::bytes_be::u16_be(vb.len() as u16) + vb
    } else {
        seq![0u8, nb.len() as u8] + nb + crate::bytes_be::u16_be(vb.len() as u16) + vb
    }
}

/// The wire bytes of a whole header block: its entries in order.
pub open spec fn spec_encode_header_block(hs: Seq<(Seq<char>, Seq<char>)>) -> Seq<u8>
    decreases hs.len(),
{
    if hs.len() == 0 {
        Seq::empty()
    } else {
        spec_encode_header_block(hs.drop_last()) + spec_encode_header_entry(hs.last().0, hs.last().1)
    }
}

/// Serialize (name, value) pairs as a header block. Names the static table
/// knows are sent by ID; other names are sent literally.
pub fn encode_header_block(headers: &Vec<(String, String)>) -> (r: Vec<u8>)
    requires
        forall|i: int|
            0 <= i < headers@.len() ==> vstd::utf8::encode_utf8(#[trigger] headers@[i].0@).len() <= 0xFF
                && vstd::utf8::encode_utf8(headers@[i].1@).len() <= 0xFFFF,
    ensures
        r@ == spec_encode_header_block(view_pairs(headers@)),
{
    let mut out: Vec<u8> = Vec::new();
    let mut i: usize = 0;
    proof {
        assert(view_pairs(headers@).take(0) =~= Seq::empty());
        assert(out@ =~= spec_encode_header_block(view_pairs(headers@).take(0)));
    }
    while i < headers.len()
        invariant
            i <= headers@.len(),
            out@ == spec_encode_header_block(view_pairs(headers@).take(i as int)),
            forall|k: int|
                0 <= k < headers@.len() ==> vstd::utf8::encode_utf8(#[trigger] headers@[k].0@).len() <= 0xFF
                    && vstd::utf8::encode_utf8(headers@[k].1@).len() <= 0xFFFF,
        decreases headers@.len() - i,
    {
        let ghost before = view_pairs(headers@).take(i as int);
        let name = &headers[i].0;
        let value = &headers[i].1;
        let id = static_header_id(name.as_str());
        let nb = name.as_str().as_bytes();
        let vb = value.as_str().as_bytes();
        if id != 0 {
            out.push(id);
            crate::bytes_be::push_u16_be(&mut out, vb.len() as u16);
            crate::bytes_be::push_bytes(&mut out, vb);
        } else {
            out.push(0);
            out.push(nb.len() as u8);
            crate::bytes_be::push_bytes(&mut out, nb);
            crate::bytes_be::push_u16_be(&mut out, vb.len() as u16);
            crate::bytes_be::push_bytes(&mut out, vb);
        }
        i = i + 1;
        proof {
            let now = view_pairs(headers@).take(i as int);
            assert(now.drop_last() =~= before);
            assert(now.last() == (headers@[i - 1].0@, headers@[i - 1].1@));
            assert(out@ =~= spec_encode_header_block(now));
        }
    }
    proof {
        assert(view_pairs(headers@).take(headers@.len() as int) =~= view_pairs(headers@));
    }
    out
}


} // verus!
