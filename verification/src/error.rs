//! The ways in which aggregation and verification fail.
use vstd::prelude::*;

verus! {

/// Why an aggregation or a verification could not be carried out. A proof that is found wrong
/// is no error: verification then answers `false`.
#[derive(Clone, Copy, Debug, PartialEq, Eq, Structural)]
pub enum SynthesisError {
    /// A vector of the reference string, or a commitment key, has not the length of the batch.
    MalformedSrs,
    /// The batch has fewer than two proofs, its size is no power of two, or two vectors that
    /// belong together differ in length.
    MalformedProofs,
    /// A proof's public inputs are not one fewer than the verifying key's input points.
    MalformedVerifyingKey,
    /// A point of the verifying key that must not be the identity is the identity.
    UnexpectedIdentity,
    /// No nonce gave a challenge other than zero.
    ChallengeExhausted,
}

} // verus!
