//! Copies of owned bytes and text.

use vstd::prelude::*;

verus! {

/// A fresh vector with the same bytes.
pub fn copy_bytes(bytes: &Vec<u8>) -> (out: Vec<u8>)
    ensures
        out@ == bytes@,
{
    let out = bytes.clone();
    assert(out@ =~= bytes@);
    out
}

/// A fresh string with the same text.
pub fn copy_text(text: &String) -> (out: String)
    ensures
        out@ == text@,
{
    text.clone()
}

} // verus!
