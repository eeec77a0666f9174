//! Aggregation of Groth16 proofs over BLS12-381.
//!
//! Many proofs for one verifying key are folded into a single proof, which is checked in time
//! logarithmic in their number. The prover commits to the points of the proofs, proves the
//! product of their pairings and the sum of their third points by two recursive arguments,
//! and shows by two polynomial openings that the commitment keys were folded as the
//! challenges say. The verifier replays the challenges and decides everything with one final
//! exponentiation.
//!
//! The arithmetic of the curve is that of `blstrs`, the hash is SHA-256 of `sha2`. What the
//! library does with them is stated in contracts and proved:
//!
//! - [`field`], [`curve`]: scalars, points and target-field elements, held as plain values;
//! - [`transcript`]: Fiat-Shamir challenges;
//! - [`commit`], [`inner_product`], [`vectors`]: commitment keys, commitments, inner products;
//! - [`poly`], [`kzg`]: the polynomial of a challenge transcript and its openings;
//! - [`tipp`], [`mipp`]: the two arguments, on the prover's side;
//! - [`verify_tipp`], [`verify_mipp`], [`accumulator`]: the same on the verifier's side;
//! - [`prove`], [`verify`]: aggregation and verification of a batch;
//! - [`srs`], [`proofs`], [`batch`], [`error`], [`groth16`]: the data that goes in and out;
//! - [`field_laws`], [`poly_laws`], [`rescale`], [`replay_laws`], [`shape_laws`]: what
//!   holds of all inputs.
pub mod accumulator;
pub mod batch;
pub mod commit;
pub mod curve;
pub mod error;
pub mod field;
pub mod field_laws;
pub mod groth16;
pub mod inner_product;
pub mod kzg;
pub mod mipp;
pub mod poly;
pub mod poly_laws;
pub mod proofs;
pub mod prove;
pub mod replay_laws;
pub mod rescale;
pub mod shape_laws;
pub mod srs;
pub mod tipp;
pub mod transcript;
pub mod vectors;
pub mod verify;
pub mod verify_mipp;
pub mod verify_tipp;
