//! The structured reference string.
//!
//! The prover's part holds the powers that the commitment keys are made of:
//! `h^(alpha^i)` and `h^(beta^i)` for `i` from 1 to `n` make up the key `v`,
//! `g^(alpha^(n+i))` and `g^(beta^(n+i))` the key `w`. The verifier's part holds eight points.
use crate::commit::{KeyView, VKey, WKey};
use crate::curve::{g1_views, g2_views, G1, G2};
use crate::field::{fr_pow, fr_values, modulus, Fr};
use crate::field_laws::{lemma_pow_step, lemma_pow_zero};
use crate::vectors::{g1_range, g2_range};
use vstd::prelude::*;

verus! {

/// The prover's reference string for batches of `n` proofs.
#[derive(Clone, Debug, PartialEq, Eq)]
pub struct SRS {
    /// The size of the batches that the string is for.
    pub n: usize,
    /// `g^(alpha^(n+i))` for `i` from 1 to `n`.
    pub g_alpha_powers: Vec<G1>,
    /// `g^(beta^(n+i))` for `i` from 1 to `n`.
    pub g_beta_powers: Vec<G1>,
    /// `h^(alpha^i)` for `i` from 1 to `n`.
    pub h_alpha_powers: Vec<G2>,
    /// `h^(beta^i)` for `i` from 1 to `n`.
    pub h_beta_powers: Vec<G2>,
}

/// The verifier's reference string.
#[derive(Clone, Copy, Debug, PartialEq, Eq)]
pub struct VerifierSRS {
    /// The generator of G1.
    pub g: G1,
    /// The generator of G2.
    pub h: G2,
    /// `g^alpha`.
    pub g_alpha: G1,
    /// `g^beta`.
    pub g_beta: G1,
    /// `h^alpha`.
    pub h_alpha: G2,
    /// `h^beta`.
    pub h_beta: G2,
    /// `g^(alpha^(n+1))`.
    pub g_alpha_n1: G1,
    /// `g^(beta^(n+1))`.
    pub g_beta_n1: G1,
}

/// What the verifier's reference string stands for: the encodings of its points.
pub struct VerifierSrsView {
    pub g: Seq<u8>,
    pub h: Seq<u8>,
    pub g_alpha: Seq<u8>,
    pub g_beta: Seq<u8>,
    pub h_alpha: Seq<u8>,
    pub h_beta: Seq<u8>,
    pub g_alpha_n1: Seq<u8>,
    pub g_beta_n1: Seq<u8>,
}

impl View for VerifierSRS {
    type V = VerifierSrsView;

    open spec fn view(&self) -> VerifierSrsView {
        VerifierSrsView {
            g: self.g@,
            h: self.h@,
            g_alpha: self.g_alpha@,
            g_beta: self.g_beta@,
            h_alpha: self.h_alpha@,
            h_beta: self.h_beta@,
            g_alpha_n1: self.g_alpha_n1@,
            g_beta_n1: self.g_beta_n1@,
        }
    }
}

/// The key `v` that a reference string holds.
pub open spec fn srs_vkey(srs: SRS) -> KeyView {
    KeyView { a: g2_views(srs.h_alpha_powers@), b: g2_views(srs.h_beta_powers@) }
}

/// The key `w` that a reference string holds.
pub open spec fn srs_wkey(srs: SRS) -> KeyView {
    KeyView { a: g1_views(srs.g_alpha_powers@), b: g1_views(srs.g_beta_powers@) }
}

/// The first `n` powers of `s`, from `s^0` on.
pub open spec fn powers(s: nat, n: nat) -> Seq<nat> {
    Seq::new(n, |i: int| fr_pow(s, i as nat))
}

impl SRS {
    /// The commitment keys `v` and `w` that the reference string holds.
    pub fn get_commitment_keys(&self) -> (r: (VKey, WKey))
        ensures
            r.0@ == srs_vkey(*self),
            r.1@ == srs_wkey(*self),
            r.0.a@ == self.h_alpha_powers@,
            r.0.b@ == self.h_beta_powers@,
            r.1.a@ == self.g_alpha_powers@,
            r.1.b@ == self.g_beta_powers@,
    {
        let v = VKey {
            a: g2_range(&self.h_alpha_powers, 0, self.h_alpha_powers.len()),
            b: g2_range(&self.h_beta_powers, 0, self.h_beta_powers.len()),
        };
        let w = WKey {
            a: g1_range(&self.g_alpha_powers, 0, self.g_alpha_powers.len()),
            b: g1_range(&self.g_beta_powers, 0, self.g_beta_powers.len()),
        };
        proof {
            assert(v.a@ =~= self.h_alpha_powers@);
            assert(v.b@ =~= self.h_beta_powers@);
            assert(w.a@ =~= self.g_alpha_powers@);
            assert(w.b@ =~= self.g_beta_powers@);
        }
        (v, w)
    }
}

/// The vector `(1, s, s^2, ..., s^(num-1))`.
pub fn structured_scalar_power(num: usize, s: &Fr) -> (r: Vec<Fr>)
    ensures
        fr_values(r@) == powers(s@, num as nat),
{
    let ghost want = powers(s@, num as nat);
    let mut r: Vec<Fr> = Vec::new();
    let mut power = Fr::one();
    let mut i: usize = 0;
    proof {
        use_type_invariant(s);
        lemma_pow_zero(s@);
    }
    while i < num
        invariant
            i <= num,
            s@ < modulus(),
            want == powers(s@, num as nat),
            power@ == fr_pow(s@, i as nat),
            fr_values(r@) == want.take(i as int),
        decreases num - i,
    {
        let ghost before = fr_values(r@);
        r.push(power);
        proof {
            assert(fr_values(r@) =~= before.push(power@));
            assert(want.take(i + 1) =~= want.take(i as int).push(want[i as int]));
            lemma_pow_step(s@, i as nat);
        }
        power = power.mul(s);
        i = i + 1;
    }
    proof {
        assert(want.take(num as int) =~= want);
    }
    r
}

} // verus!
