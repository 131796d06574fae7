//! Account addresses of the destination chain, from their text form.

use vstd::prelude::*;
use vstd::string::StringSliceAdditionalSpecFns;
use vstd::slice::slice_subrange;
use crate::hexcode::{hex_decode, hex_value};

verus! {

/// The length of an address in bytes.
pub const ADDRESS_BYTES: usize = 20;

/// Why a text is not an address.
#[derive(Clone, Copy, Debug, PartialEq, Eq, Structural)]
pub enum AddressError {
    /// The text is shorter than its two-letter prefix.
    TooShort,
    /// What follows the prefix is not a run of pairs of hexadecimal digits.
    NotHex,
    /// The digits stand for fewer bytes than an address has.
    TooFewBytes,
}

/// The address that a text stands for: the first twenty of the bytes that
/// follow the two-letter prefix in hexadecimal.
pub open spec fn address_of(text: Seq<u8>) -> Result<Seq<u8>, AddressError> {
    if text.len() < 2 {
        Err(AddressError::TooShort)
    } else {
        match hex_value(text.skip(2)) {
            None => Err(AddressError::NotHex),
            Some(bytes) => if bytes.len() < ADDRESS_BYTES {
                Err(AddressError::TooFewBytes)
            } else {
                Ok(bytes.take(ADDRESS_BYTES as int))
            },
        }
    }
}

/// The first twenty bytes of a run of at least as many.
fn first_bytes(bytes: &Vec<u8>) -> (out: [u8; 20])
    requires
        bytes@.len() >= ADDRESS_BYTES,
    ensures
        out@ == bytes@.take(ADDRESS_BYTES as int),
{
    let mut out: [u8; 20] = [0u8; 20];
    let mut i: usize = 0;
    while i < ADDRESS_BYTES
        invariant
            i <= ADDRESS_BYTES,
            bytes@.len() >= ADDRESS_BYTES,
            forall|j: int| 0 <= j < i ==> out@[j] == bytes@[j],
        decreases ADDRESS_BYTES - i,
    {
        out[i] = bytes[i];
        i += 1;
    }
    assert(out@ =~= bytes@.take(ADDRESS_BYTES as int));
    out
}

/// Reads an address from its text form. The prefix is passed over, whatever
/// its two letters are.
pub fn to_addr(address: &str) -> (out: Result<[u8; 20], AddressError>)
    ensures
        match out {
            Ok(addr) => address_of(address.spec_bytes()) == Ok::<Seq<u8>, AddressError>(addr@),
            Err(e) => address_of(address.spec_bytes()) == Err::<Seq<u8>, AddressError>(e),
        },
{
    let text = address.as_bytes();
    if text.len() < 2 {
        return Err(AddressError::TooShort);
    }
    let digits = slice_subrange(text, 2, text.len());
    assert(digits@ =~= text@.skip(2));
    let b = match hex_decode(digits) {
        Ok(bytes) => bytes,
        Err(_) => {
            return Err(AddressError::NotHex);
        },
    };
    if b.len() < ADDRESS_BYTES {
        return Err(AddressError::TooFewBytes);
    }
    Ok(first_bytes(&b))
}

} // verus!
