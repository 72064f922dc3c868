//! The binary codec as the library consumes it.
//!
//! Compact integers are read and written by `parity_scale_codec`; the library names what
//! the codec returns and builds on those names. Fixed-width values are little-endian and
//! are decoded here.

use parity_scale_codec::{Compact, Decode as _, Encode as _};
use vstd::bytes::{
    spec_u128_from_le_bytes, spec_u32_from_le_bytes, spec_u64_from_le_bytes, u128_from_le_bytes,
    u32_from_le_bytes, u64_from_le_bytes,
};
use vstd::prelude::*;
use vstd::slice::slice_subrange;

verus! {

/// What `Compact::<u32>::decode` makes of `input`: the value together with the bytes it
/// left unread, or `None` where it reports an error.
pub uninterp spec fn compact_u32_decoding(input: Seq<u8>) -> Option<(u32, Seq<u8>)>;

/// The bytes that `Compact::<u32>::encode` writes for `value`.
pub uninterp spec fn compact_u32_encoding(value: u32) -> Seq<u8>;

/// The bytes that `Compact::<u64>::encode` writes for `value`.
pub uninterp spec fn compact_u64_encoding(value: u64) -> Seq<u8>;

/// Calls `Compact::<u32>::decode` on a byte slice. Trusted: the outcome depends on the
/// input alone; on success it is the value together with the part of the slice that the
/// codec did not read.
#[verifier::external_body]
pub(crate) fn decode_compact_u32<'a>(input: &'a [u8]) -> (r: Option<(u32, &'a [u8])>)
    ensures
        compact_u32_decoding(input@) == match r {
            Some((value, rest)) => Some((value, rest@)),
            None => None,
        },
{
    let mut rest = input;
    match Compact::<u32>::decode(&mut rest) {
        Ok(Compact(value)) => Some((value, rest)),
        Err(_) => None,
    }
}

/// Calls `Compact::<u32>::encode`. Trusted: the bytes depend on `value` alone.
#[verifier::external_body]
pub(crate) fn encode_compact_u32(value: u32) -> (bytes: Vec<u8>)
    ensures
        bytes@ == compact_u32_encoding(value),
{
    Compact(value).encode()
}

/// Calls `Compact::<u64>::encode`. Trusted: the bytes depend on `value` alone.
#[verifier::external_body]
pub(crate) fn encode_compact_u64(value: u64) -> (bytes: Vec<u8>)
    ensures
        bytes@ == compact_u64_encoding(value),
{
    Compact(value).encode()
}

/// A value that can be read from the front of the bytes a node stores.
///
/// Bytes that follow the value are ignored, as the codec ignores them.
pub trait Decode: Sized {
    /// The value that `bytes` begin with, if they begin with one.
    spec fn decoding(bytes: Seq<u8>) -> Option<Self>;

    /// Reads a value from the front of `bytes`.
    fn decode(bytes: &[u8]) -> (r: Option<Self>)
        ensures
            r == Self::decoding(bytes@),
    ;
}

impl Decode for u32 {
    open spec fn decoding(bytes: Seq<u8>) -> Option<u32> {
        if bytes.len() >= 4 {
            Some(spec_u32_from_le_bytes(bytes.subrange(0, 4)))
        } else {
            None
        }
    }

    fn decode(bytes: &[u8]) -> (r: Option<u32>) {
        if bytes.len() >= 4 {
            Some(u32_from_le_bytes(slice_subrange(bytes, 0, 4)))
        } else {
            None
        }
    }
}

impl Decode for u64 {
    open spec fn decoding(bytes: Seq<u8>) -> Option<u64> {
        if bytes.len() >= 8 {
            Some(spec_u64_from_le_bytes(bytes.subrange(0, 8)))
        } else {
            None
        }
    }

    fn decode(bytes: &[u8]) -> (r: Option<u64>) {
        if bytes.len() >= 8 {
            Some(u64_from_le_bytes(slice_subrange(bytes, 0, 8)))
        } else {
            None
        }
    }
}

impl Decode for u128 {
    open spec fn decoding(bytes: Seq<u8>) -> Option<u128> {
        if bytes.len() >= 16 {
            Some(spec_u128_from_le_bytes(bytes.subrange(0, 16)))
        } else {
            None
        }
    }

    fn decode(bytes: &[u8]) -> (r: Option<u128>) {
        if bytes.len() >= 16 {
            Some(u128_from_le_bytes(slice_subrange(bytes, 0, 16)))
        } else {
            None
        }
    }
}

/// Whether two byte strings are the same.
pub fn bytes_eq(a: &[u8], b: &[u8]) -> (r: bool)
    ensures
        r == (a@ == b@),
{
    if a.len() != b.len() {
        return false;
    }
    let mut i: usize = 0;
    while i < a.len()
        invariant
            a@.len() == b@.len(),
            i <= a@.len(),
            forall|j: int| 0 <= j < i ==> a@[j] == b@[j],
        decreases a@.len() - i,
    {
        if a[i] != b[i] {
            return false;
        }
        i += 1;
    }
    assert(a@ =~= b@);
    true
}

} // verus!
