//! Randomness, from `rand::random`: stream keys, SSRCs, initial sequence
//! numbers and URL tokens. Nothing is claimed of any value drawn.

use vstd::prelude::*;

verus! {

/// Sixteen random bytes.
///
/// Calls `rand::random::<[u8; 16]>`. Nothing is claimed of the bytes.
#[verifier::external_body]
pub(crate) fn random_bytes() -> [u8; 16] {
    rand::random()
}

/// A random `u32`.
///
/// Calls `rand::random::<u32>`. Nothing is claimed of the value.
#[verifier::external_body]
pub(crate) fn random_u32() -> u32 {
    rand::random()
}

/// A random `u16`.
///
/// Calls `rand::random::<u16>`. Nothing is claimed of the value.
#[verifier::external_body]
pub(crate) fn random_u16() -> u16 {
    rand::random()
}

} // verus!
