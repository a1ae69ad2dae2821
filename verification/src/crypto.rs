//! Cryptographic primitives of the protocol: HMAC-SHA256 truncated to the
//! 16-byte packet tag, PSK-to-key derivation, and the XChaCha20-Poly1305
//! AEAD used when a packet is encrypted.
//!
//! The primitives themselves come from outside crates; each is reached
//! through one trusted wrapper whose contract names its result. Everything
//! downstream is verified against those names.

use vstd::prelude::*;

use crate::error::AkariError;
use chacha20poly1305::aead::{Aead, KeyInit};
use hmac::Mac;
use sha2::Digest;
use subtle::ConstantTimeEq;

verus! {

/// Length of the truncated per-packet HMAC tag.
pub const TAG_LEN: usize = 16;

/// Length of the AEAD authenticator.
pub const AEAD_TAG_LEN: usize = 16;

/// The 32-byte HMAC-SHA256 digest of `data` under `key`.
pub uninterp spec fn hmac_sha256_of(key: Seq<u8>, data: Seq<u8>) -> Seq<u8>;

/// The 32-byte SHA-256 digest of `data`.
pub uninterp spec fn sha256_of(data: Seq<u8>) -> Seq<u8>;

/// What XChaCha20-Poly1305 sealing produces: ciphertext followed by the
/// 16-byte authenticator.
pub uninterp spec fn xchacha_seal(key: Seq<u8>, nonce: Seq<u8>, aad: Seq<u8>, plaintext: Seq<u8>) -> Seq<u8>;

/// What XChaCha20-Poly1305 opening produces on ciphertext-plus-tag input:
/// the plaintext when the authenticator verifies, nothing otherwise.
pub uninterp spec fn xchacha_open(key: Seq<u8>, nonce: Seq<u8>, aad: Seq<u8>, combined: Seq<u8>) -> Option<Seq<u8>>;

/// A byte string cut to exactly 16 bytes: its first 16 bytes, zero-padded
/// if it is shorter. The digests it is applied to are 32 bytes, so the
/// padding branch only makes the length manifest.
pub open spec fn take16(s: Seq<u8>) -> Seq<u8> {
    if s.len() >= 16 {
        s.take(16)
    } else {
        s + Seq::new((16 - s.len()) as nat, |i: int| 0u8)
    }
}

/// The truncated per-packet tag: the first 16 bytes of HMAC-SHA256.
pub open spec fn tag_of(key: Seq<u8>, data: Seq<u8>) -> Seq<u8> {
    take16(hmac_sha256_of(key, data))
}

/// A truncated tag is always 16 bytes.
pub proof fn lemma_tag_of_len(key: Seq<u8>, data: Seq<u8>)
    ensures
        tag_of(key, data).len() == TAG_LEN,
{
}

/// The AEAD key derived from a PSK: the PSK itself when it is exactly 32
/// bytes, else its SHA-256 digest.
pub open spec fn derived_key(psk: Seq<u8>) -> Seq<u8> {
    if psk.len() == 32 {
        psk
    } else {
        sha256_of(psk)
    }
}

/// The 24-byte AEAD nonce: message_id (8 B BE), seq (2 B BE), the low two
/// flag bits, then 13 zero bytes.
pub open spec fn nonce_bytes(message_id: u64, seq: u16, flags: u8) -> Seq<u8> {
    crate::bytes_be::u64_be(message_id) + crate::bytes_be::u16_be(seq) + seq![(flags & 0x03) as u8]
        + Seq::new(13, |i: int| 0u8)
}

/// Relies on `hmac`'s `Hmac<Sha256>`: `new_from_slice` accepts a key of any
/// length, and the finalized MAC is the 32-byte HMAC-SHA256 of the input.
#[verifier::external_body]
fn hmac_sha256(key: &[u8], data: &[u8]) -> (r: Vec<u8>)
    ensures
        r@ == hmac_sha256_of(key@, data@),
        r@.len() == 32,
{
    match <hmac::Hmac<sha2::Sha256> as Mac>::new_from_slice(key) {
        Ok(mut m) => {
            m.update(data);
            m.finalize().into_bytes().to_vec()
        },
        Err(_) => Vec::new(),
    }
}

/// Relies on `sha2::Sha256::digest`: the 32-byte SHA-256 digest of the input.
#[verifier::external_body]
fn sha256(data: &[u8]) -> (r: Vec<u8>)
    ensures
        r@ == sha256_of(data@),
        r@.len() == 32,
{
    sha2::Sha256::digest(data).to_vec()
}

/// Relies on `chacha20poly1305`'s `XChaCha20Poly1305::encrypt`: the result is
/// the ciphertext followed by the 16-byte tag, and sealing never fails for
/// messages far below the cipher's block-count limit. Opening what was sealed
/// under the same key, nonce and associated data gives back the plaintext.
#[verifier::external_body]
fn aead_seal(key: &[u8], nonce: &[u8], aad: &[u8], plaintext: &[u8]) -> (r: Vec<u8>)
    requires
        key@.len() == 32,
        nonce@.len() == 24,
        plaintext@.len() <= 0x10000,
    ensures
        r@ == xchacha_seal(key@, nonce@, aad@, plaintext@),
        r@.len() == plaintext@.len() + 16,
        xchacha_open(key@, nonce@, aad@, r@) == Some(plaintext@),
{
    let cipher = chacha20poly1305::XChaCha20Poly1305::new_from_slice(key).unwrap();
    let n = chacha20poly1305::XNonce::from_slice(nonce);
    cipher.encrypt(n, chacha20poly1305::aead::Payload { msg: plaintext, aad }).unwrap()
}

/// Relies on `chacha20poly1305`'s `XChaCha20Poly1305::decrypt`: it returns
/// the plaintext exactly when the trailing authenticator verifies, and fails
/// otherwise.
#[verifier::external_body]
fn aead_open(key: &[u8], nonce: &[u8], aad: &[u8], combined: &[u8]) -> (r: Option<Vec<u8>>)
    requires
        key@.len() == 32,
        nonce@.len() == 24,
    ensures
        r is Some <==> xchacha_open(key@, nonce@, aad@, combined@) is Some,
        r matches Some(p) ==> xchacha_open(key@, nonce@, aad@, combined@) == Some(p@),
{
    let cipher = chacha20poly1305::XChaCha20Poly1305::new_from_slice(key).unwrap();
    let n = chacha20poly1305::XNonce::from_slice(nonce);
    cipher.decrypt(n, chacha20poly1305::aead::Payload { msg: combined, aad }).ok()
}

/// Relies on `subtle`'s `ConstantTimeEq` for byte slices: equality of the two
/// slices, evaluated in constant time over their contents.
#[verifier::external_body]
pub fn ct_bytes_eq(a: &[u8], b: &[u8]) -> (r: bool)
    ensures
        r == (a@ == b@),
{
    a.ct_eq(b).into()
}

/// The truncated per-packet HMAC tag of `data` under `psk`.
pub fn compute_tag(psk: &[u8], data: &[u8]) -> (r: Result<Vec<u8>, AkariError>)
    ensures
        r matches Ok(t) && t@ == tag_of(psk@, data@),
        r matches Ok(t) && t@.len() == TAG_LEN,
{
    let digest = hmac_sha256(psk, data);
    let mut tag: Vec<u8> = Vec::new();
    let mut i: usize = 0;
    while i < TAG_LEN
        invariant
            i <= TAG_LEN,
            digest@ == hmac_sha256_of(psk@, data@),
            digest@.len() == 32,
            tag@ == digest@.take(i as int),
        decreases TAG_LEN - i,
    {
        let b = digest[i];
        tag.push(b);
        i = i + 1;
        assert(tag@ =~= digest@.take(i as int));
    }
    assert(tag@ =~= tag_of(psk@, data@));
    assert(tag@.len() == TAG_LEN);
    Ok(tag)
}

/// The AEAD key for a PSK: the PSK itself at 32 bytes, else its digest.
pub fn derive_key(psk: &[u8]) -> (r: Vec<u8>)
    ensures
        r@ == derived_key(psk@),
        r@.len() == 32,
{
    if psk.len() == 32 {
        let mut out: Vec<u8> = Vec::new();
        crate::bytes_be::push_bytes(&mut out, psk);
        assert(out@ =~= psk@);
        out
    } else {
        sha256(psk)
    }
}

/// The 24-byte AEAD nonce for a packet.
pub fn build_nonce(message_id: u64, seq: u16, flags: u8) -> (r: Vec<u8>)
    ensures
        r@ == nonce_bytes(message_id, seq, flags),
        r@.len() == 24,
{
    let mut out: Vec<u8> = Vec::new();
    crate::bytes_be::push_u64_be(&mut out, message_id);
    crate::bytes_be::push_u16_be(&mut out, seq);
    out.push(flags & 0x03);
    let mut i: usize = 0;
    while i < 13
        invariant
            i <= 13,
            out@ == crate::bytes_be::u64_be(message_id) + crate::bytes_be::u16_be(seq) + seq![
                (flags & 0x03) as u8,
            ] + Seq::new(i as nat, |j: int| 0u8),
        decreases 13 - i,
    {
        out.push(0u8);
        i = i + 1;
        assert(out@ =~= crate::bytes_be::u64_be(message_id) + crate::bytes_be::u16_be(seq) + seq![
            (flags & 0x03) as u8,
        ] + Seq::new(i as nat, |j: int| 0u8));
    }
    assert(out@ =~= nonce_bytes(message_id, seq, flags));
    out
}

/// Seal a payload for a packet: derive the key, build the nonce, and return
/// the ciphertext-plus-tag the AEAD produces over the header as associated
/// data.
pub fn seal_payload(psk: &[u8], message_id: u64, seq: u16, flags: u8, aad: &[u8], plaintext: &[u8]) -> (r: Vec<u8>)
    requires
        plaintext@.len() <= 0x10000,
    ensures
        r@ == xchacha_seal(derived_key(psk@), nonce_bytes(message_id, seq, flags), aad@, plaintext@),
        r@.len() == plaintext@.len() + 16,
        xchacha_open(derived_key(psk@), nonce_bytes(message_id, seq, flags), aad@, r@) == Some(plaintext@),
{
    let key = derive_key(psk);
    let nonce = build_nonce(message_id, seq, flags);
    aead_seal(key.as_slice(), nonce.as_slice(), aad, plaintext)
}

/// Open a sealed payload: derive the key, build the nonce, and return the
/// plaintext exactly when the authenticator verifies.
pub fn open_payload(psk: &[u8], message_id: u64, seq: u16, flags: u8, aad: &[u8], combined: &[u8]) -> (r: Option<
    Vec<u8>,
>)
    ensures
        r is Some <==> xchacha_open(derived_key(psk@), nonce_bytes(message_id, seq, flags), aad@, combined@) is Some,
        r matches Some(p) ==> xchacha_open(derived_key(psk@), nonce_bytes(message_id, seq, flags), aad@, combined@)
            == Some(p@),
{
    let key = derive_key(psk);
    let nonce = build_nonce(message_id, seq, flags);
    aead_open(key.as_slice(), nonce.as_slice(), aad, combined)
}

/// AEAD-encrypt a v1/v2 packet payload: the ciphertext and the 16-byte
/// authenticator, under the nonce the header's id, seq and low flag bits
/// give, with the serialized header as associated data.
pub fn encrypt_payload(psk: &[u8], header: &crate::header::Header, plaintext: &[u8]) -> (r: Result<
    (Vec<u8>, Vec<u8>),
    AkariError,
>)
    ensures
        plaintext@.len() > 0xFFFF ==> r == Err::<(Vec<u8>, Vec<u8>), AkariError>(
            AkariError::PayloadTooLarge(plaintext@.len() as usize),
        ),
        r matches Ok((c, t)) ==> {
            &&& plaintext@.len() <= 0xFFFF
            &&& c@ + t@ == xchacha_seal(
                derived_key(psk@),
                nonce_bytes(header.message_id, header.seq, header.flags),
                crate::header::spec_header_bytes(*header),
                plaintext@,
            )
            &&& c@.len() == plaintext@.len()
            &&& t@.len() == AEAD_TAG_LEN
        },
{
    if plaintext.len() > 0xFFFF {
        return Err(AkariError::PayloadTooLarge(plaintext.len()));
    }
    let aad = header.to_bytes();
    let sealed = seal_payload(psk, header.message_id, header.seq, header.flags, aad.as_slice(), plaintext);
    let split = sealed.len() - AEAD_TAG_LEN;
    let c = vstd::slice::slice_to_vec(vstd::slice::slice_subrange(sealed.as_slice(), 0, split));
    let t = vstd::slice::slice_to_vec(vstd::slice::slice_subrange(sealed.as_slice(), split, sealed.len()));
    proof {
        assert(c@ + t@ =~= sealed@);
    }
    Ok((c, t))
}

/// AEAD-decrypt a v1/v2 packet payload: the plaintext exactly when the
/// authenticator verifies under the header's nonce and serialized bytes.
pub fn decrypt_payload(psk: &[u8], header: &crate::header::Header, ciphertext: &[u8], tag: &[u8]) -> (r: Result<
    Vec<u8>,
    AkariError,
>)
    ensures
        tag@.len() != AEAD_TAG_LEN ==> r == Err::<Vec<u8>, AkariError>(AkariError::AeadFailed),
        tag@.len() == AEAD_TAG_LEN ==> {
            &&& r is Ok <==> xchacha_open(
                derived_key(psk@),
                nonce_bytes(header.message_id, header.seq, header.flags),
                crate::header::spec_header_bytes(*header),
                ciphertext@ + tag@,
            ) is Some
            &&& r matches Ok(p) ==> Some(p@) == xchacha_open(
                derived_key(psk@),
                nonce_bytes(header.message_id, header.seq, header.flags),
                crate::header::spec_header_bytes(*header),
                ciphertext@ + tag@,
            )
            &&& r matches Err(e) ==> e == AkariError::AeadFailed
        },
{
    if tag.len() != AEAD_TAG_LEN {
        return Err(AkariError::AeadFailed);
    }
    let aad = header.to_bytes();
    let mut combined: Vec<u8> = Vec::new();
    crate::bytes_be::push_bytes(&mut combined, ciphertext);
    crate::bytes_be::push_bytes(&mut combined, tag);
    match open_payload(psk, header.message_id, header.seq, header.flags, aad.as_slice(), combined.as_slice()) {
        Some(p) => Ok(p),
        None => Err(AkariError::AeadFailed),
    }
}

/// AEAD-encrypt a v3 packet payload, with caller-supplied associated data
/// (the serialized v3 header).
pub fn encrypt_payload_v3(
    psk: &[u8],
    header: &crate::header_v3::HeaderV3,
    plaintext: &[u8],
    aad: &[u8],
) -> (r: Result<(Vec<u8>, Vec<u8>), AkariError>)
    ensures
        plaintext@.len() > 0xFFFF ==> r == Err::<(Vec<u8>, Vec<u8>), AkariError>(
            AkariError::PayloadTooLarge(plaintext@.len() as usize),
        ),
        r matches Ok((c, t)) ==> {
            &&& plaintext@.len() <= 0xFFFF
            &&& c@ + t@ == xchacha_seal(
                derived_key(psk@),
                nonce_bytes(header.message_id, header.seq, header.flags),
                aad@,
                plaintext@,
            )
            &&& c@.len() == plaintext@.len()
            &&& t@.len() == AEAD_TAG_LEN
        },
{
    if plaintext.len() > 0xFFFF {
        return Err(AkariError::PayloadTooLarge(plaintext.len()));
    }
    let sealed = seal_payload(psk, header.message_id, header.seq, header.flags, aad, plaintext);
    let split = sealed.len() - AEAD_TAG_LEN;
    let c = vstd::slice::slice_to_vec(vstd::slice::slice_subrange(sealed.as_slice(), 0, split));
    let t = vstd::slice::slice_to_vec(vstd::slice::slice_subrange(sealed.as_slice(), split, sealed.len()));
    proof {
        assert(c@ + t@ =~= sealed@);
    }
    Ok((c, t))
}

/// AEAD-decrypt a v3 packet payload, with caller-supplied associated data.
pub fn decrypt_payload_v3(
    psk: &[u8],
    header: &crate::header_v3::HeaderV3,
    ciphertext: &[u8],
    tag: &[u8],
    aad: &[u8],
) -> (r: Result<Vec<u8>, AkariError>)
    ensures
        tag@.len() != AEAD_TAG_LEN ==> r == Err::<Vec<u8>, AkariError>(AkariError::AeadFailed),
        tag@.len() == AEAD_TAG_LEN ==> {
            &&& r is Ok <==> xchacha_open(
                derived_key(psk@),
                nonce_bytes(header.message_id, header.seq, header.flags),
                aad@,
                ciphertext@ + tag@,
            ) is Some
            &&& r matches Ok(p) ==> Some(p@) == xchacha_open(
                derived_key(psk@),
                nonce_bytes(header.message_id, header.seq, header.flags),
                aad@,
                ciphertext@ + tag@,
            )
            &&& r matches Err(e) ==> e == AkariError::AeadFailed
        },
{
    if tag.len() != AEAD_TAG_LEN {
        return Err(AkariError::AeadFailed);
    }
    let mut combined: Vec<u8> = Vec::new();
    crate::bytes_be::push_bytes(&mut combined, ciphertext);
    crate::bytes_be::push_bytes(&mut combined, tag);
    match open_payload(psk, header.message_id, header.seq, header.flags, aad, combined.as_slice()) {
        Some(p) => Ok(p),
        None => Err(AkariError::AeadFailed),
    }
}

} // verus!
