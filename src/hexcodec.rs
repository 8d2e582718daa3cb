//! Hexadecimal text, through the `hex` crate.
use vstd::prelude::*;

verus! {

/// The upper-case hex digit for `d` in `0..16`.
pub open spec fn hex_digit_upper(d: int) -> char {
    if d < 10 { ((d + 48) as u8) as char } else { ((d + 55) as u8) as char }
}

/// Two upper-case hex digits per byte, high nibble first.
pub open spec fn hex_upper(b: Seq<u8>) -> Seq<char>
    decreases b.len(),
{
    if b.len() == 0 {
        Seq::empty()
    } else {
        hex_upper(b.drop_last()) + seq![hex_digit_upper(b.last() as int / 16), hex_digit_upper(b.last() as int % 16)]
    }
}

/// The value of a hex digit byte, either case.
pub open spec fn hex_val(c: u8) -> Option<int> {
    if 48 <= c <= 57 {
        Some(c - 48)
    } else if 65 <= c <= 70 {
        Some(c - 55)
    } else if 97 <= c <= 102 {
        Some(c - 87)
    } else {
        None
    }
}

/// The bytes a hex string stands for: `None` for an odd length or a byte
/// that is not a hex digit.
pub open spec fn hex_decoded(b: Seq<u8>) -> Option<Seq<u8>> {
    if b.len() % 2 != 0 || exists|i: int| 0 <= i < b.len() && #[trigger] hex_val(b[i]) is None {
        None
    } else {
        Some(Seq::new((b.len() / 2) as nat, |i: int| (hex_val(b[2 * i])->0 * 16 + hex_val(b[2 * i + 1])->0) as u8))
    }
}

/// Relies on `hex::encode_upper`: two upper-case digits per byte.
#[verifier::external_body]
pub(crate) fn encode_upper(b: &Vec<u8>) -> (r: Vec<char>)
    ensures
        r@ == hex_upper(b@),
{
    hex::encode_upper(b).chars().collect()
}

/// Relies on `hex::decode`: `Err` for an odd length or a non-hex byte, else
/// one byte per pair of digits.
#[verifier::external_body]
pub(crate) fn decode(b: &Vec<u8>) -> (r: Option<Vec<u8>>)
    ensures
        match r {
            Some(v) => hex_decoded(b@) == Some(v@),
            None => hex_decoded(b@) is None,
        },
{
    hex::decode(b).ok()
}

} // verus!
