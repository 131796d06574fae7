//! The text form of a signing key: the prefix `0x`, then the key in
//! hexadecimal.

use vstd::prelude::*;
use vstd::slice::slice_subrange;
use vstd::string::{StringExecFns, StringSliceAdditionalSpecFns};
use crate::hexcode::{hex_chars, hex_decode, hex_encode, hex_value};

verus! {

/// Why a text is not the text form of a key.
#[derive(Clone, Copy, Debug, PartialEq, Eq, Structural)]
pub enum KeyTextError {
    /// The text does not start with `0x`.
    MissingPrefix,
    /// What follows the prefix is not a run of pairs of hexadecimal digits.
    NotHex,
}

/// The bytes of the key that a text stands for.
pub open spec fn secret_of(text: Seq<u8>) -> Result<Seq<u8>, KeyTextError> {
    if text.len() < 2 || text[0] != 0x30 || text[1] != 0x78 {
        Err(KeyTextError::MissingPrefix)
    } else {
        match hex_value(text.skip(2)) {
            Some(bytes) => Ok(bytes),
            None => Err(KeyTextError::NotHex),
        }
    }
}

/// Reads the bytes of a key from its text form.
pub fn secret_from_text(text: &str) -> (out: Result<Vec<u8>, KeyTextError>)
    ensures
        match out {
            Ok(bytes) => secret_of(text.spec_bytes()) == Ok::<Seq<u8>, KeyTextError>(bytes@),
            Err(e) => secret_of(text.spec_bytes()) == Err::<Seq<u8>, KeyTextError>(e),
        },
{
    let raw = text.as_bytes();
    if raw.len() < 2 || raw[0] != 0x30 || raw[1] != 0x78 {
        return Err(KeyTextError::MissingPrefix);
    }
    let digits = slice_subrange(raw, 2, raw.len());
    assert(digits@ =~= raw@.skip(2));
    match hex_decode(digits) {
        Ok(bytes) => Ok(bytes),
        Err(_) => Err(KeyTextError::NotHex),
    }
}

/// The text form of a key: the prefix, then the bytes in hexadecimal.
pub fn secret_to_text(bytes: &[u8]) -> (out: String)
    ensures
        out@ == "0x"@ + hex_chars(bytes@),
{
    let digits = hex_encode(bytes);
    String::from_str("0x").concat(digits.as_str())
}

/// A key comes back from its text form.
pub proof fn theorem_secret_text_round_trip(bytes: Seq<u8>)
    ensures
        secret_of(vstd::utf8::encode_utf8("0x"@ + hex_chars(bytes))) == Ok::<
            Seq<u8>,
            KeyTextError,
        >(bytes),
{
    reveal_strlit("0x");
    let text = "0x"@ + hex_chars(bytes);
    assert forall|i: int| 0 <= i < text.len() implies (#[trigger] text[i]) as nat <= 0x7f by {
        if i >= 2 {
            assert(text[i] == hex_chars(bytes)[i - 2]);
        }
    }
    vstd::utf8::is_ascii_chars_encode_utf8(text);
    let raw = vstd::utf8::encode_utf8(text);
    assert(raw.len() == text.len());
    assert forall|i: int| 0 <= i < raw.len() implies #[trigger] raw[i] == text[i] as u8 by {}
    let digits = raw.skip(2);
    assert(digits.len() == 2 * bytes.len());
    assert forall|i: int| 0 <= i < digits.len() implies crate::hexcode::hex_digit(
        #[trigger] digits[i],
    ) is Some by {
        assert(digits[i] == raw[i + 2]);
        assert(text[i + 2] == hex_chars(bytes)[i]);
    }
    let back = hex_value(digits)->0;
    assert(back.len() == bytes.len());
    assert forall|k: int| 0 <= k < bytes.len() implies #[trigger] back[k] == bytes[k] by {
        assert(digits[2 * k] == raw[2 * k + 2]);
        assert(digits[2 * k + 1] == raw[2 * k + 3]);
        assert(text[2 * k + 2] == hex_chars(bytes)[2 * k]);
        assert(text[2 * k + 3] == hex_chars(bytes)[2 * k + 1]);
    }
    assert(back =~= bytes);
}

} // verus!
