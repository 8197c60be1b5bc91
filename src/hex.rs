//! Decoding of the hexadecimal text that carries each firmware record.

use vstd::prelude::*;
use rustc_serialize::hex::FromHex;

verus! {

#[verifier::external_type_specification]
#[verifier::external_body]
pub struct ExFromHexError(rustc_serialize::hex::FromHexError);

/// Characters that the decoder skips between digits.
pub open spec fn is_hex_space(c: char) -> bool {
    c == ' ' || c == '\r' || c == '\n' || c == '\t'
}

/// The value of one hexadecimal digit, either case.
pub open spec fn hex_digit_value(c: char) -> Option<u8> {
    if '0' <= c && c <= '9' {
        Some((c as u32 - '0' as u32) as u8)
    } else if 'a' <= c && c <= 'f' {
        Some((c as u32 - 'a' as u32 + 10) as u8)
    } else if 'A' <= c && c <= 'F' {
        Some((c as u32 - 'A' as u32 + 10) as u8)
    } else {
        None
    }
}

/// The digits of `s`, with the skipped characters taken out.
pub open spec fn hex_digits(s: Seq<char>) -> Seq<char> {
    s.filter(|c: char| !is_hex_space(c))
}

/// `s` holds only digits and skipped characters, and an even number of digits.
pub open spec fn hex_decodable(s: Seq<char>) -> bool {
    &&& forall|i: int| 0 <= i < s.len() ==> (#[trigger] hex_digit_value(s[i]) is Some || is_hex_space(s[i]))
    &&& hex_digits(s).len() % 2 == 0
}

/// The bytes that a decodable `s` stands for: one for each pair of digits,
/// the first digit of the pair being the high half.
pub open spec fn hex_decode(s: Seq<char>) -> Seq<u8> {
    let d = hex_digits(s);
    Seq::new(
        d.len() / 2,
        |i: int| (hex_digit_value(d[2 * i])->0 * 16 + hex_digit_value(d[2 * i + 1])->0) as u8,
    )
}

/// Relies on `FromHex::from_hex` for `str` (rustc-serialize): it skips spaces,
/// tabs, carriage returns and line feeds, fails on any other non-digit
/// character or on an odd number of digits, and otherwise yields one byte per
/// pair of digits, high half first.
#[verifier::external_body]
pub(crate) fn from_hex(s: &str) -> (r: Result<Vec<u8>, rustc_serialize::hex::FromHexError>)
    ensures
        r is Ok <==> hex_decodable(s@),
        r matches Ok(b) ==> b@ == hex_decode(s@),
{
    s.from_hex()
}

} // verus!
