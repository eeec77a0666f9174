//! Openings of the commitment keys that a recursion ends with.
//!
//! A recursion folds a key down to one entry per vector. That entry is the key's base raised
//! to the value, at the secret exponent, of the polynomial of the recursion's challenges. The
//! prover shows so by opening that polynomial at a challenge point `z`: the opening is the
//! key's powers combined with the coefficients of the quotient by `X - z`. The verifier
//! checks, for each of the key's two vectors, one equation between two pairings.
use crate::accumulator::{PairingTuple, PairingTupleView};
use crate::curve::{
    fqk_inverse, fqk_one, fqk_product, g1_negation, g1_scaled, g1_sum, g1_views, g2_negation,
    g2_scaled, g2_sum, g2_views, miller_loop, miller_loop_of, Fqk, G1, G2,
};
use crate::error::SynthesisError;
use crate::field::{fr_values, Fr};
use crate::inner_product::{
    g1_multiexp, g2_multiexp, multiexponentiation, multiexponentiation_g2,
};
use crate::poly::{
    coefficients, divide_by_linear, evaluation_product, polynomial_coefficients_from_transcript,
    polynomial_evaluation_product_form_from_transcript, quotient,
};
use crate::proofs::{g1_pair, g2_pair, KZGOpening, Pair};
use crate::srs::{VerifierSRS, VerifierSrsView};
use vstd::prelude::*;

verus! {

/// The scalars that an opening combines a key's powers with: the coefficients of the
/// quotient of the transcript's polynomial by `X - z`, and a zero for the last power.
pub open spec fn opening_scalars(t: Seq<nat>, r: nat, z: nat) -> Seq<nat> {
    quotient(coefficients(t, r), z).push(0)
}

/// Whether a transcript's polynomial and two vectors of powers all have the length `len`.
pub open spec fn opening_fits(alpha_len: nat, beta_len: nat, len: nat, t: Seq<nat>, r: nat)
    -> bool {
    coefficients(t, r).len() == len && alpha_len == len && beta_len == len
}

/// The opening at `z` of a folded key `v`, whose powers are `alpha` and `beta`, for the
/// transcript `t` and the shift `r`: `MalformedSrs` unless the lengths fit `len`.
pub open spec fn kzg_opening_g2(
    alpha: Seq<Seq<u8>>,
    beta: Seq<Seq<u8>>,
    len: nat,
    t: Seq<nat>,
    r: nat,
    z: nat,
) -> Result<Pair, SynthesisError> {
    if opening_fits(alpha.len(), beta.len(), len, t, r) {
        Ok(
            (
                g2_multiexp(alpha, opening_scalars(t, r, z)),
                g2_multiexp(beta, opening_scalars(t, r, z)),
            ),
        )
    } else {
        Err(SynthesisError::MalformedSrs)
    }
}

/// The opening at `z` of a folded key `w`, whose powers are `alpha` and `beta`, for the
/// transcript `t` and the shift `r`: `MalformedSrs` unless the lengths fit `len`.
pub open spec fn kzg_opening_g1(
    alpha: Seq<Seq<u8>>,
    beta: Seq<Seq<u8>>,
    len: nat,
    t: Seq<nat>,
    r: nat,
    z: nat,
) -> Result<Pair, SynthesisError> {
    if opening_fits(alpha.len(), beta.len(), len, t, r) {
        Ok(
            (
                g1_multiexp(alpha, opening_scalars(t, r, z)),
                g1_multiexp(beta, opening_scalars(t, r, z)),
            ),
        )
    } else {
        Err(SynthesisError::MalformedSrs)
    }
}

/// The Miller loop of one pair of points.
pub open spec fn miller_pair(p: Seq<u8>, q: Seq<u8>) -> Seq<u8> {
    miller_loop(seq![p], seq![q])
}

/// The check that fails.
pub open spec fn invalid_check() -> PairingTupleView {
    PairingTupleView { miller: fqk_one(), constant: fqk_one(), valid: false }
}

/// The check that `alpha_key` and `alpha_opening`, and `beta_key` and `beta_opening`, are equal
/// after the final exponentiation: the product of `alpha_opening / alpha_key` and
/// `beta_opening / beta_key` is to become one. It fails where `alpha_key` or `beta_key` has no
/// inverse.
pub open spec fn quotient_check(
    alpha_key: Seq<u8>,
    alpha_opening: Seq<u8>,
    beta_key: Seq<u8>,
    beta_opening: Seq<u8>,
) -> PairingTupleView {
    match (fqk_inverse(alpha_key), fqk_inverse(beta_key)) {
        (Some(alpha_inverse), Some(beta_inverse)) => PairingTupleView {
            miller: fqk_product(
                fqk_product(beta_inverse, beta_opening),
                fqk_product(alpha_inverse, alpha_opening),
            ),
            constant: fqk_one(),
            valid: true,
        },
        _ => invalid_check(),
    }
}

/// A G1 point less a second one.
pub open spec fn g1_difference(a: Seq<u8>, b: Seq<u8>) -> Seq<u8> {
    g1_sum(a, g1_negation(b))
}

/// A G2 point less a second one.
pub open spec fn g2_difference(a: Seq<u8>, b: Seq<u8>) -> Seq<u8> {
    g2_sum(a, g2_negation(b))
}

/// The check of an opening `opening` of the folded key `v`, whose polynomial has the value
/// `y` at the point `z`: for the first vector
/// `e(g, v.0 - y h^alpha) = e(g^alpha - z g, opening.0)`, and the same with `beta` for the
/// second.
pub open spec fn kzg_check_g2(srs: VerifierSrsView, v: Pair, opening: Pair, y: nat, z: nat)
    -> PairingTupleView {
    quotient_check(
        miller_pair(srs.g, g2_difference(v.0, g2_scaled(srs.h_alpha, y))),
        miller_pair(g1_difference(srs.g_alpha, g1_scaled(srs.g, z)), opening.0),
        miller_pair(srs.g, g2_difference(v.1, g2_scaled(srs.h_beta, y))),
        miller_pair(g1_difference(srs.g_beta, g1_scaled(srs.g, z)), opening.1),
    )
}

/// The check of an opening `opening` of the folded key `w`, whose polynomial has the value
/// `y` at the point `z`: for the first vector
/// `e(w.0 - y g^(alpha^(n+1)), h) = e(opening.0, h^alpha - z h)`, and the same with `beta`
/// for the second.
pub open spec fn kzg_check_g1(srs: VerifierSrsView, w: Pair, opening: Pair, y: nat, z: nat)
    -> PairingTupleView {
    quotient_check(
        miller_pair(g1_difference(w.0, g1_scaled(srs.g_alpha_n1, y)), srs.h),
        miller_pair(opening.0, g2_difference(srs.h_alpha, g2_scaled(srs.h, z))),
        miller_pair(g1_difference(w.1, g1_scaled(srs.g_beta_n1, y)), srs.h),
        miller_pair(opening.1, g2_difference(srs.h_beta, g2_scaled(srs.h, z))),
    )
}

/// The Miller loop of one pair of points.
pub fn miller_loop_pair(p: &G1, q: &G2) -> (r: Fqk)
    ensures
        r@ == miller_pair(p@, q@),
{
    let mut ps: Vec<G1> = Vec::new();
    ps.push(*p);
    let mut qs: Vec<G2> = Vec::new();
    qs.push(*q);
    proof {
        assert(g1_views(ps@) =~= seq![p@]);
        assert(g2_views(qs@) =~= seq![q@]);
    }
    miller_loop_of(&ps, &qs)
}

/// Puts the four Miller loop outputs of an opening's two equations into one check.
fn combine_arms(alpha_key: &Fqk, alpha_opening: &Fqk, beta_key: &Fqk, beta_opening: &Fqk) -> (r:
    PairingTuple)
    ensures
        r@ == quotient_check(alpha_key@, alpha_opening@, beta_key@, beta_opening@),
{
    let alpha_inverse = match alpha_key.inverse() {
        Some(x) => x,
        None => {
            return PairingTuple::new_invalid();
        },
    };
    let beta_inverse = match beta_key.inverse() {
        Some(x) => x,
        None => {
            return PairingTuple::new_invalid();
        },
    };
    PairingTuple::from_miller(beta_inverse.mul(beta_opening).mul(&alpha_inverse.mul(alpha_opening)))
}

/// The scalars of an opening, from the coefficients of the transcript's polynomial.
fn quotient_scalars(coeffs: &Vec<Fr>, kzg_challenge: &Fr) -> (r: Vec<Fr>)
    ensures
        fr_values(r@) == quotient(fr_values(coeffs@), kzg_challenge@).push(0),
{
    let mut q = divide_by_linear(coeffs, kzg_challenge);
    let ghost before = fr_values(q@);
    q.push(Fr::zero());
    proof {
        assert(fr_values(q@) =~= before.push(0));
    }
    q
}

/// Opens the folded key `v` at `kzg_challenge`: the powers of the reference string, combined
/// with the quotient of the transcript's polynomial by `X - kzg_challenge`. `transcript`
/// holds the recursion's challenges, last first. It fails with `MalformedSrs` when the
/// polynomial has not `srs_powers_len` coefficients, or a vector of powers has not that
/// length.
pub fn prove_commitment_key_kzg_opening_g2(
    srs_powers_alpha: &Vec<G2>,
    srs_powers_beta: &Vec<G2>,
    srs_powers_len: usize,
    transcript: &Vec<Fr>,
    r_shift: &Fr,
    kzg_challenge: &Fr,
) -> (r: Result<KZGOpening<G2>, SynthesisError>)
    ensures
        match r {
            Ok(o) => kzg_opening_g2(
                g2_views(srs_powers_alpha@),
                g2_views(srs_powers_beta@),
                srs_powers_len as nat,
                fr_values(transcript@),
                r_shift@,
                kzg_challenge@,
            ) == Ok::<Pair, SynthesisError>((o.0@, o.1@)),
            Err(e) => kzg_opening_g2(
                g2_views(srs_powers_alpha@),
                g2_views(srs_powers_beta@),
                srs_powers_len as nat,
                fr_values(transcript@),
                r_shift@,
                kzg_challenge@,
            ) == Err::<Pair, SynthesisError>(e),
        },
{
    let coeffs = polynomial_coefficients_from_transcript(transcript, r_shift);
    assert(fr_values(coeffs@).len() == coeffs@.len());
    if srs_powers_len != coeffs.len() || srs_powers_alpha.len() != srs_powers_len
        || srs_powers_beta.len() != srs_powers_len {
        return Err(SynthesisError::MalformedSrs);
    }
    let scalars = quotient_scalars(&coeffs, kzg_challenge);
    proof {
        crate::poly_laws::lemma_coefficients_len(fr_values(transcript@), r_shift@);
        vstd::arithmetic::power2::lemma_pow2_pos(transcript@.len());
        assert(fr_values(scalars@).len() == scalars@.len());
    }
    Ok(
        KZGOpening(
            multiexponentiation_g2(srs_powers_alpha, &scalars),
            multiexponentiation_g2(srs_powers_beta, &scalars),
        ),
    )
}

/// Opens the folded key `w` at `kzg_challenge`: the powers of the reference string, combined
/// with the quotient of the transcript's polynomial by `X - kzg_challenge`. `transcript`
/// holds the recursion's challenges, last first. It fails with `MalformedSrs` when the
/// polynomial has not `srs_powers_len` coefficients, or a vector of powers has not that
/// length.
pub fn prove_commitment_key_kzg_opening_g1(
    srs_powers_alpha: &Vec<G1>,
    srs_powers_beta: &Vec<G1>,
    srs_powers_len: usize,
    transcript: &Vec<Fr>,
    r_shift: &Fr,
    kzg_challenge: &Fr,
) -> (r: Result<KZGOpening<G1>, SynthesisError>)
    ensures
        match r {
            Ok(o) => kzg_opening_g1(
                g1_views(srs_powers_alpha@),
                g1_views(srs_powers_beta@),
                srs_powers_len as nat,
                fr_values(transcript@),
                r_shift@,
                kzg_challenge@,
            ) == Ok::<Pair, SynthesisError>((o.0@, o.1@)),
            Err(e) => kzg_opening_g1(
                g1_views(srs_powers_alpha@),
                g1_views(srs_powers_beta@),
                srs_powers_len as nat,
                fr_values(transcript@),
                r_shift@,
                kzg_challenge@,
            ) == Err::<Pair, SynthesisError>(e),
        },
{
    let coeffs = polynomial_coefficients_from_transcript(transcript, r_shift);
    assert(fr_values(coeffs@).len() == coeffs@.len());
    if srs_powers_len != coeffs.len() || srs_powers_alpha.len() != srs_powers_len
        || srs_powers_beta.len() != srs_powers_len {
        return Err(SynthesisError::MalformedSrs);
    }
    let scalars = quotient_scalars(&coeffs, kzg_challenge);
    proof {
        crate::poly_laws::lemma_coefficients_len(fr_values(transcript@), r_shift@);
        vstd::arithmetic::power2::lemma_pow2_pos(transcript@.len());
        assert(fr_values(scalars@).len() == scalars@.len());
    }
    Ok(
        KZGOpening(
            multiexponentiation(srs_powers_alpha, &scalars),
            multiexponentiation(srs_powers_beta, &scalars),
        ),
    )
}

/// The check of an opening of the folded key `v`. `challenges` holds the recursion's
/// challenges, last first; `r_shift` is the shift that the key was scaled by.
pub fn verify_kzg_opening_g2(
    v_srs: &VerifierSRS,
    final_vkey: &(G2, G2),
    vkey_opening: &KZGOpening<G2>,
    challenges: &Vec<Fr>,
    r_shift: &Fr,
    kzg_challenge: &Fr,
) -> (r: PairingTuple)
    ensures
        r@ == kzg_check_g2(
            v_srs@,
            g2_pair(*final_vkey),
            (vkey_opening.0@, vkey_opening.1@),
            evaluation_product(fr_values(challenges@), kzg_challenge@, r_shift@),
            kzg_challenge@,
        ),
{
    let vpoly_eval_z = polynomial_evaluation_product_form_from_transcript(
        challenges,
        kzg_challenge,
        r_shift,
    );
    let g_z = v_srs.g.scale(kzg_challenge);
    // e(g, v1 - f(z) h^alpha) and e(g^alpha - z g, opening)
    let alpha_key = miller_loop_pair(
        &v_srs.g,
        &final_vkey.0.sub(&v_srs.h_alpha.scale(&vpoly_eval_z)),
    );
    let alpha_opening = miller_loop_pair(&v_srs.g_alpha.sub(&g_z), &vkey_opening.0);
    // the same for the second vector of the key, with beta
    let beta_key = miller_loop_pair(
        &v_srs.g,
        &final_vkey.1.sub(&v_srs.h_beta.scale(&vpoly_eval_z)),
    );
    let beta_opening = miller_loop_pair(&v_srs.g_beta.sub(&g_z), &vkey_opening.1);
    combine_arms(&alpha_key, &alpha_opening, &beta_key, &beta_opening)
}

/// The check of an opening of the folded key `w`. `challenges` holds the recursion's
/// challenges, last first; `r_shift` is the shift that the key was scaled by.
pub fn verify_kzg_opening_g1(
    v_srs: &VerifierSRS,
    final_wkey: &(G1, G1),
    wkey_opening: &KZGOpening<G1>,
    challenges: &Vec<Fr>,
    r_shift: &Fr,
    kzg_challenge: &Fr,
) -> (r: PairingTuple)
    ensures
        r@ == kzg_check_g1(
            v_srs@,
            g1_pair(*final_wkey),
            (wkey_opening.0@, wkey_opening.1@),
            evaluation_product(fr_values(challenges@), kzg_challenge@, r_shift@),
            kzg_challenge@,
        ),
{
    let wkey_poly_eval = polynomial_evaluation_product_form_from_transcript(
        challenges,
        kzg_challenge,
        r_shift,
    );
    let h_z = v_srs.h.scale(kzg_challenge);
    // e(w1 - f(z) g^(alpha^(n+1)), h) and e(opening, h^alpha - z h)
    let alpha_key = miller_loop_pair(
        &final_wkey.0.sub(&v_srs.g_alpha_n1.scale(&wkey_poly_eval)),
        &v_srs.h,
    );
    let alpha_opening = miller_loop_pair(&wkey_opening.0, &v_srs.h_alpha.sub(&h_z));
    // the same for the second vector of the key, with beta
    let beta_key = miller_loop_pair(
        &final_wkey.1.sub(&v_srs.g_beta_n1.scale(&wkey_poly_eval)),
        &v_srs.h,
    );
    let beta_opening = miller_loop_pair(&wkey_opening.1, &v_srs.h_beta.sub(&h_z));
    combine_arms(&alpha_key, &alpha_opening, &beta_key, &beta_opening)
}

} // verus!
