//! Text helpers: checked and lossy UTF-8 decoding, and decimal rendering of
//! small integers, each behind one trusted wrapper.

use vstd::prelude::*;
use vstd::utf8::{decode_utf8, valid_utf8};

verus! {

/// What lossy UTF-8 decoding produces: valid input decodes exactly, invalid
/// sequences are replaced.
pub uninterp spec fn utf8_lossy_of(bytes: Seq<u8>) -> Seq<char>;

/// Relies on `core::str::from_utf8`: it accepts exactly valid UTF-8, and the
/// resulting string decodes the bytes.
#[verifier::external_body]
pub fn bytes_to_utf8(b: &[u8]) -> (r: Option<String>)
    ensures
        r is Some <==> valid_utf8(b@),
        r matches Some(s) ==> s@ == decode_utf8(b@),
{
    match core::str::from_utf8(b) {
        Ok(s) => Some(s.to_string()),
        Err(_) => None,
    }
}

/// Relies on `String::from_utf8_lossy`: valid UTF-8 decodes exactly; invalid
/// sequences come back with replacement characters.
#[verifier::external_body]
pub fn bytes_to_utf8_lossy(b: &[u8]) -> (r: String)
    ensures
        r@ == utf8_lossy_of(b@),
        valid_utf8(b@) ==> r@ == decode_utf8(b@),
{
    String::from_utf8_lossy(b).to_string()
}

/// The decimal digits of `n` below `bound`, most significant first, without
/// leading zeros.
pub open spec fn spec_decimal(n: int) -> Seq<char>
    decreases n,
{
    if n <= 0 {
        seq![]
    } else {
        spec_decimal(n / 10).push((('0' as int) + n % 10) as char)
    }
}

/// The decimal rendering of a `u8`: its digits, or "0" for zero.
pub open spec fn spec_u8_decimal(n: u8) -> Seq<char> {
    if n == 0 {
        seq!['0']
    } else {
        spec_decimal(n as int)
    }
}

/// Relies on `format!` (`core::fmt`): integers render as their decimal
/// digits without leading zeros.
#[verifier::external_body]
pub fn u8_decimal_string(n: u8) -> (r: String)
    ensures
        r@ == spec_u8_decimal(n),
{
    format!("{}", n)
}

} // verus!
