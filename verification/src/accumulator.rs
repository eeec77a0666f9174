//! The pairing accumulator: many checks of the form "the final exponentiation of this Miller
//! loop output equals that constant" are multiplied into one, so that a single final
//! exponentiation decides them all.
use crate::curve::{final_exp, fqk_one, fqk_product, Fqk};
use vstd::prelude::*;

verus! {

/// What a [`PairingTuple`] stands for.
pub struct PairingTupleView {
    /// The product of the Miller loop outputs.
    pub miller: Seq<u8>,
    /// The product of the constants that they are to equal after the final exponentiation.
    pub constant: Seq<u8>,
    /// Whether no check that went in is known to have failed.
    pub valid: bool,
}

/// A check, or the product of several: a Miller loop output, and what it is to equal after
/// the final exponentiation.
#[derive(Clone, Copy, Debug, PartialEq, Eq)]
pub struct PairingTuple {
    miller: Fqk,
    constant: Fqk,
    valid: bool,
}

impl View for PairingTuple {
    type V = PairingTupleView;

    closed spec fn view(&self) -> PairingTupleView {
        PairingTupleView { miller: self.miller@, constant: self.constant@, valid: self.valid }
    }
}

/// The product of two checks. It is invalid as soon as one of them is.
pub open spec fn merged(a: PairingTupleView, b: PairingTupleView) -> PairingTupleView {
    PairingTupleView {
        miller: fqk_product(a.miller, b.miller),
        constant: fqk_product(a.constant, b.constant),
        valid: a.valid && b.valid,
    }
}

/// Whether a check holds: it is valid, and the final exponentiation of its Miller loop
/// output is its constant.
pub open spec fn holds(t: PairingTupleView) -> bool {
    t.valid && final_exp(t.miller) == t.constant
}

impl PairingTuple {
    /// The check that holds of nothing: one on both sides.
    pub fn new() -> (r: PairingTuple)
        ensures
            r@ == (PairingTupleView { miller: fqk_one(), constant: fqk_one(), valid: true }),
    {
        PairingTuple { miller: Fqk::one(), constant: Fqk::one(), valid: true }
    }

    /// The check that fails, whatever is merged into it.
    pub fn new_invalid() -> (r: PairingTuple)
        ensures
            r@ == (PairingTupleView { miller: fqk_one(), constant: fqk_one(), valid: false }),
            !holds(r@),
    {
        PairingTuple { miller: Fqk::one(), constant: Fqk::one(), valid: false }
    }

    /// The check that the final exponentiation of `miller` is one.
    pub fn from_miller(miller: Fqk) -> (r: PairingTuple)
        ensures
            r@ == (PairingTupleView { miller: miller@, constant: fqk_one(), valid: true }),
    {
        PairingTuple { miller, constant: Fqk::one(), valid: true }
    }

    /// The check that the final exponentiation of `miller` is `constant`.
    pub fn from_pair(miller: Fqk, constant: Fqk) -> (r: PairingTuple)
        ensures
            r@ == (PairingTupleView { miller: miller@, constant: constant@, valid: true }),
    {
        PairingTuple { miller, constant, valid: true }
    }

    /// Multiplies another check into this one.
    pub fn merge(&mut self, other: &PairingTuple)
        ensures
            final(self)@ == merged(old(self)@, other@),
    {
        self.miller = self.miller.mul(&other.miller);
        self.constant = self.constant.mul(&other.constant);
        self.valid = self.valid && other.valid;
    }

    /// Decides the check with one final exponentiation.
    pub fn verify(&self) -> (r: bool)
        ensures
            r == holds(self@),
    {
        if !self.valid {
            return false;
        }
        self.miller.final_exponentiation().is_equal(&self.constant)
    }
}

/// A check that is invalid stays invalid, whatever is merged into it and whatever it is
/// merged into.
pub proof fn lemma_invalid_absorbs(a: PairingTupleView, b: PairingTupleView)
    requires
        !a.valid,
    ensures
        !holds(merged(a, b)),
        !holds(merged(b, a)),
{
}

} // verus!
