//! Hexadecimal text: two digits to the byte.

use vstd::prelude::*;

verus! {

/// The value of a hexadecimal digit, upper or lower case.
pub open spec fn hex_digit(c: u8) -> Option<u8> {
    if 0x30 <= c <= 0x39 {
        Some((c - 0x30) as u8)
    } else if 0x61 <= c <= 0x66 {
        Some((c - 0x61 + 10) as u8)
    } else if 0x41 <= c <= 0x46 {
        Some((c - 0x41 + 10) as u8)
    } else {
        None
    }
}

/// The byte that a pair of hexadecimal digits stands for.
pub open spec fn hex_pair(high: u8, low: u8) -> u8 {
    (hex_digit(high).unwrap() * 16 + hex_digit(low).unwrap()) as u8
}

/// The bytes that a run of hexadecimal digits stands for, two digits to the
/// byte; none where the run has an odd length or holds anything but digits.
pub open spec fn hex_value(digits: Seq<u8>) -> Option<Seq<u8>> {
    if digits.len() % 2 != 0 || exists|i: int|
        0 <= i < digits.len() && hex_digit(#[trigger] digits[i]) is None {
        None
    } else {
        Some(Seq::new(digits.len() / 2, |i: int| hex_pair(digits[2 * i], digits[2 * i + 1])))
    }
}

/// `hex::FromHexError`, the error of text that is no hexadecimal. It is
/// carried from the call to where it is turned into an error of this crate;
/// nothing is read from it.
#[verifier::external_type_specification]
#[verifier::external_body]
pub struct ExFromHexError(hex::FromHexError);

/// Decodes hexadecimal digits through `hex::decode`: two digits to the byte,
/// upper and lower case alike; an error where the length is odd or a
/// character is no digit.
#[verifier::external_body]
pub(crate) fn hex_decode(digits: &[u8]) -> (out: Result<Vec<u8>, hex::FromHexError>)
    ensures
        match out {
            Ok(bytes) => hex_value(digits@) == Some(bytes@),
            Err(_) => hex_value(digits@) is None,
        },
{
    hex::decode(digits)
}

/// The lower-case hexadecimal digit of a value below sixteen.
pub open spec fn hex_char(v: int) -> char {
    if v < 10 {
        ((0x30 + v) as u8) as char
    } else {
        ((0x61 + v - 10) as u8) as char
    }
}

/// The hexadecimal text of a run of bytes: for each byte its high digit, then
/// its low digit, in lower case.
pub open spec fn hex_chars(bytes: Seq<u8>) -> Seq<char> {
    Seq::new(
        2 * bytes.len(),
        |i: int|
            if i % 2 == 0 {
                hex_char(bytes[i / 2] as int / 16)
            } else {
                hex_char(bytes[i / 2] as int % 16)
            },
    )
}

/// Encodes bytes as hexadecimal text through `hex::encode`: two lower-case
/// digits to the byte, the high digit first.
#[verifier::external_body]
pub(crate) fn hex_encode(bytes: &[u8]) -> (out: String)
    ensures
        out@ == hex_chars(bytes@),
{
    hex::encode(bytes)
}

} // verus!
