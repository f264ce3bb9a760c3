//! A field-bridging sponge hash for recursive proof systems.
//!
//! Elements of a small circuit-native prime field (Goldilocks) are packed
//! into elements of a large wrapping prime field (the BN254 scalar field),
//! absorbed into a fixed-width sponge state by an externally supplied
//! permutation, and squeezed into a digest that is a single large-field
//! element.  The digest has canonical byte and decimal encodings for
//! consumption by external verifiers.

pub mod bytes;
pub mod decimal;
pub mod digest;
pub mod field;
pub mod permutation;
pub mod sponge;

use vstd::prelude::*;

verus! {

/// Failures of the digest codecs.  Every failure is terminal for its one
/// invocation: a value is never silently truncated or reduced.
#[derive(Clone, Copy, PartialEq, Eq, Structural, Debug)]
pub enum HashError {
    /// Raw bytes of the wrong length, or denoting an integer at or above
    /// the field modulus.
    MalformedBytes,
    /// Decimal text that is empty or holds a character other than an
    /// ASCII digit.
    InvalidDecimalString,
    /// Decimal text whose integer value is at or above the field modulus.
    NonCanonicalFieldValue,
}

/// Marker for the hash configuration pairing the Goldilocks circuit field
/// with the BN254-scalar-field sponge defined by this crate.
#[derive(Clone, Copy, PartialEq, Eq, Structural, Debug)]
pub struct PoseidonBN128GoldilocksConfig;

} // verus!
