//! Verification of an aggregate proof.
//!
//! The verifier draws the randomness `r` again, checks the two arguments that the aggregate
//! holds, and checks the Groth16 equation summed over the batch with the powers of `r`:
//! `ip_ab = e(alpha, beta)^s e(I, gamma) e(agg_c, delta)`, where `s` is the sum of the powers
//! of `r` and `I` combines the verifying key's input points with the public inputs. All the
//! checks are multiplied into one pairing tuple, which one final exponentiation decides.
use crate::accumulator::{holds, merged, PairingTuple, PairingTupleView};
use crate::batch::{check_batch_size, valid_batch_size};
use crate::curve::{fqk_one, g1_scaled, g1_sum, g1_views, Fqk, G1};
use crate::error::SynthesisError;
use crate::field::{fr_add, fr_inverse, fr_mul, fr_pow, fr_sub, fr_values, modulus, Fr};
use crate::inner_product::{g1_multiexp, multiexponentiation};
use crate::kzg::{miller_loop_pair, miller_pair};
use crate::proofs::{fqk_pair, AggregateProof, AggregateProofView, PreparedVerifyingKey};
use crate::prove::randomness_transcript;
use crate::srs::{powers, structured_scalar_power, VerifierSRS, VerifierSrsView};
use crate::transcript::{challenge, challenge_bound, derive_challenge};
use crate::vectors::g1_range;
use crate::verify_mipp::{mipp_check, verify_mipp};
use crate::verify_tipp::{tipp_check, verify_tipp};
use vstd::prelude::*;

verus! {

/// The values of the public inputs of a batch: one list of scalars for each proof.
pub open spec fn inputs_view(inputs: Seq<Vec<Fr>>) -> Seq<Seq<nat>> {
    Seq::new(inputs.len(), |j: int| fr_values(inputs[j]@))
}

/// Whether each proof has one public input fewer than the verifying key has input points.
pub open spec fn inputs_fit(inputs: Seq<Seq<nat>>, ic_len: nat) -> bool {
    forall|j: int| 0 <= j < inputs.len() ==> (#[trigger] inputs[j]).len() + 1 == ic_len
}

/// The sum `1 + r + ... + r^(n-1)`, as `(r^n - 1) / (r - 1)`, and as `n` where `r` is one.
pub open spec fn power_sum(r: nat, n: nat) -> nat {
    if r == 1 {
        n % modulus()
    } else {
        fr_mul(fr_sub(fr_pow(r, n), 1), fr_inverse(fr_sub(r, 1)))
    }
}

/// The public input `i` of the first `k` proofs, combined with the powers of `r`.
pub open spec fn combined_input(inputs: Seq<Seq<nat>>, i: int, r: nat, k: nat) -> nat
    decreases k,
{
    if k == 0 {
        0
    } else {
        fr_add(
            combined_input(inputs, i, r, (k - 1) as nat),
            fr_mul(inputs[k - 1][i], fr_pow(r, (k - 1) as nat)),
        )
    }
}

/// The public inputs of the batch, each combined over the proofs with the powers of `r`.
pub open spec fn combined_inputs(inputs: Seq<Seq<nat>>, r: nat, count: nat) -> Seq<nat> {
    Seq::new(count, |i: int| combined_input(inputs, i, r, inputs.len()))
}

/// The point `I` of the summed equation: the first input point times the sum of the powers
/// of `r`, plus the other input points by the combined public inputs.
pub open spec fn input_commitment(ic: Seq<Seq<u8>>, inputs: Seq<Seq<nat>>, r: nat) -> Seq<u8> {
    g1_sum(
        g1_scaled(ic[0], power_sum(r, inputs.len())),
        g1_multiexp(
            ic.subrange(1, ic.len() as int),
            combined_inputs(inputs, r, (ic.len() - 1) as nat),
        ),
    )
}

/// The check that the final exponentiation of `miller` is one.
pub open spec fn miller_check(miller: Seq<u8>) -> PairingTupleView {
    PairingTupleView { miller, constant: fqk_one(), valid: true }
}

/// The answer to the aggregate `proof` for the public inputs `inputs` under the verifying
/// key `pvk`.
///
/// It is `MalformedVerifyingKey` where a proof has not one public input fewer than the key
/// has input points, else `MalformedProofs` where the batch has no valid size, and
/// `ChallengeExhausted` where a challenge cannot be drawn. Otherwise the checks of the two
/// arguments and of the three pairings of the summed Groth16 equation are multiplied into
/// the check that starts as `(1, ip_ab)`, and the answer is whether that check holds.
pub open spec fn verification(
    srs: VerifierSrsView,
    pvk: PreparedVerifyingKey,
    inputs: Seq<Seq<nat>>,
    proof: AggregateProofView,
) -> Result<bool, SynthesisError> {
    if !inputs_fit(inputs, pvk.ic@.len()) {
        Err(SynthesisError::MalformedVerifyingKey)
    } else if !valid_batch_size(inputs.len()) {
        Err(SynthesisError::MalformedProofs)
    } else {
        match challenge(randomness_transcript(proof.com_ab, proof.com_c)) {
            None => Err(SynthesisError::ChallengeExhausted),
            Some(r) => match tipp_check(srs, proof.com_ab, proof.ip_ab, proof.proof_ab, r) {
                Err(e) => Err(e),
                Ok(tipp) => match mipp_check(srs, proof.com_c, proof.agg_c, proof.proof_c) {
                    Err(e) => Err(e),
                    Ok(mipp) => Ok(
                        holds(
                            merged(
                                merged(
                                    merged(
                                        merged(merged(seed_check(proof.ip_ab), tipp), mipp),
                                        left_check(pvk, r, inputs.len()),
                                    ),
                                    right_check(pvk, proof.agg_c),
                                ),
                                middle_check(pvk, inputs, r),
                            ),
                        ),
                    ),
                },
            },
        }
    }
}

/// Whether each proof has one public input fewer than the verifying key has input points.
pub fn check_inputs(public_inputs: &Vec<Vec<Fr>>, ic_len: usize) -> (r: bool)
    ensures
        r == inputs_fit(inputs_view(public_inputs@), ic_len as nat),
{
    let mut j: usize = 0;
    while j < public_inputs.len()
        invariant
            j <= public_inputs.len(),
            forall|k: int|
                0 <= k < j ==> (#[trigger] inputs_view(public_inputs@)[k]).len() + 1 == ic_len,
        decreases public_inputs.len() - j,
    {
        proof {
            assert(inputs_view(public_inputs@)[j as int].len() == public_inputs@[j as int]@.len());
        }
        if ic_len == 0 || public_inputs[j].len() != ic_len - 1 {
            return false;
        }
        j = j + 1;
    }
    true
}

/// The sum of the first `n` powers of `r`.
pub fn sum_of_powers(r: &Fr, n: usize) -> (s: Fr)
    ensures
        s@ == power_sum(r@, n as nat),
{
    if r.is_equal(&Fr::one()) {
        return Fr::from_u64(n as u64);
    }
    let r_n = r.pow(n as u64);
    let r_less_one = r.sub(&Fr::one());
    proof {
        // r - 1 is zero only where r is one
        use_type_invariant(r);
        let m = modulus() as int;
        vstd::arithmetic::div_mod::lemma_small_mod(1, modulus());
        vstd::arithmetic::div_mod::lemma_small_mod((m - 1) as nat, modulus());
        if r@ >= 1 {
            vstd::arithmetic::div_mod::lemma_fundamental_div_mod_converse(
                r@ + m - 1,
                m,
                1,
                r@ - 1,
            );
        }
        assert(r_less_one@ != 0);
    }
    match r_less_one.inverse() {
        Some(b) => r_n.sub(&Fr::one()).mul(&b),
        None => vstd::pervasive::unreached(),
    }
}

/// The public inputs of the batch, each combined over the proofs with the powers of `r`.
fn combine_inputs(public_inputs: &Vec<Vec<Fr>>, powers_of_r: &Vec<Fr>, r: &Fr, count: usize) -> (s:
    Vec<Fr>)
    requires
        fr_values(powers_of_r@) == powers(r@, public_inputs@.len()),
        forall|j: int|
            0 <= j < public_inputs@.len() ==> (#[trigger] public_inputs@[j])@.len() == count,
    ensures
        fr_values(s@) == combined_inputs(inputs_view(public_inputs@), r@, count as nat),
{
    let ghost inputs = inputs_view(public_inputs@);
    let ghost want = combined_inputs(inputs, r@, count as nat);
    let n = public_inputs.len();
    let mut s: Vec<Fr> = Vec::new();
    let mut i: usize = 0;
    proof {
        assert(powers_of_r@.len() == fr_values(powers_of_r@).len());
    }
    while i < count
        invariant
            i <= count,
            n == public_inputs@.len(),
            n == powers_of_r@.len(),
            inputs == inputs_view(public_inputs@),
            want == combined_inputs(inputs, r@, count as nat),
            fr_values(powers_of_r@) == powers(r@, public_inputs@.len()),
            forall|j: int|
                0 <= j < public_inputs@.len() ==> (#[trigger] public_inputs@[j])@.len() == count,
            fr_values(s@) == want.take(i as int),
        decreases count - i,
    {
        // column i of the public inputs, by the powers of r
        let mut c = Fr::zero();
        let mut j: usize = 0;
        while j < n
            invariant
                j <= n,
                i < count,
                n == public_inputs@.len(),
                n == powers_of_r@.len(),
                inputs == inputs_view(public_inputs@),
                fr_values(powers_of_r@) == powers(r@, public_inputs@.len()),
                forall|k: int|
                    0 <= k < public_inputs@.len() ==> (#[trigger] public_inputs@[k])@.len()
                        == count,
                c@ == combined_input(inputs, i as int, r@, j as nat),
            decreases n - j,
        {
            proof {
                assert(public_inputs@[j as int]@.len() == count);
                assert(inputs[j as int][i as int] == public_inputs@[j as int]@[i as int]@);
                assert(fr_values(powers_of_r@)[j as int] == powers_of_r@[j as int]@);
                assert(powers(r@, public_inputs@.len())[j as int] == fr_pow(r@, j as nat));
            }
            let ai = public_inputs[j][i].mul(&powers_of_r[j]);
            c = c.add(&ai);
            j = j + 1;
        }
        let ghost before = fr_values(s@);
        s.push(c);
        proof {
            assert(fr_values(s@) =~= before.push(c@));
            assert(want.take(i + 1) =~= want.take(i as int).push(want[i as int]));
        }
        i = i + 1;
    }
    proof {
        assert(want.take(count as int) =~= want);
    }
    s
}

/// The left part of the summed Groth16 equation: `e(alpha^s, beta)`, where `s` is the sum of
/// the powers of `r`.
pub open spec fn left_check(pvk: PreparedVerifyingKey, r: nat, n: nat) -> PairingTupleView {
    miller_check(miller_pair(g1_scaled(pvk.alpha_g1@, power_sum(r, n)), pvk.beta_g2@))
}

/// The right part of the summed Groth16 equation: `e(agg_c, delta)`.
pub open spec fn right_check(pvk: PreparedVerifyingKey, agg_c: Seq<u8>) -> PairingTupleView {
    miller_check(miller_pair(agg_c, pvk.delta_g2@))
}

/// The middle part of the summed Groth16 equation, that of the public inputs: `e(I, gamma)`.
pub open spec fn middle_check(pvk: PreparedVerifyingKey, inputs: Seq<Seq<nat>>, r: nat)
    -> PairingTupleView {
    miller_check(miller_pair(input_commitment(g1_views(pvk.ic@), inputs, r), pvk.gamma_g2@))
}

/// The check that everything is merged into: the product of all the Miller loops is to become
/// the aggregated inner product `ip_ab`.
pub open spec fn seed_check(ip_ab: Seq<u8>) -> PairingTupleView {
    PairingTupleView { miller: fqk_one(), constant: ip_ab, valid: true }
}

/// Draws the randomness `r` of an aggregation from its two commitments, as the prover does.
/// It is not zero and below 2^128.
pub fn derive_randomness(com_ab: &(Fqk, Fqk), com_c: &(Fqk, Fqk)) -> (r: Option<Fr>)
    ensures
        match r {
            Some(x) => challenge(randomness_transcript(fqk_pair(*com_ab), fqk_pair(*com_c)))
                == Some(x@) && x@ != 0 && x@ < challenge_bound(),
            None => challenge(
                randomness_transcript(fqk_pair(*com_ab), fqk_pair(*com_c)),
            ).is_none(),
        },
{
    let mut input: Vec<u8> = Vec::new();
    com_ab.0.write_to(&mut input);
    com_ab.1.write_to(&mut input);
    com_c.0.write_to(&mut input);
    com_c.1.write_to(&mut input);
    proof {
        assert(input@ =~= randomness_transcript(fqk_pair(*com_ab), fqk_pair(*com_c)));
    }
    derive_challenge(&input)
}

/// The check of the left part of the summed Groth16 equation for a batch of `n` proofs.
pub fn verify_left(pvk: &PreparedVerifyingKey, r: &Fr, n: usize) -> (t: PairingTuple)
    ensures
        t@ == left_check(*pvk, r@, n as nat),
{
    let r_sum = sum_of_powers(r, n);
    PairingTuple::from_miller(miller_loop_pair(&pvk.alpha_g1.scale(&r_sum), &pvk.beta_g2))
}

/// The check of the right part of the summed Groth16 equation.
pub fn verify_right(pvk: &PreparedVerifyingKey, agg_c: &G1) -> (t: PairingTuple)
    ensures
        t@ == right_check(*pvk, agg_c@),
{
    PairingTuple::from_miller(miller_loop_pair(agg_c, &pvk.delta_g2))
}

/// The check of the middle part of the summed Groth16 equation: input point `i + 1` of the
/// verifying key is raised to the sum, over the proofs `j`, of `r^j` times public input `i`
/// of proof `j`. It fails with `MalformedVerifyingKey` where the key has no input point, or a
/// proof has not one public input fewer than the key has input points.
pub fn verify_middle(pvk: &PreparedVerifyingKey, public_inputs: &Vec<Vec<Fr>>, r: &Fr) -> (t:
    Result<PairingTuple, SynthesisError>)
    ensures
        match t {
            Ok(tuple) => pvk.ic@.len() > 0 && inputs_fit(
                inputs_view(public_inputs@),
                pvk.ic@.len(),
            ) && tuple@ == middle_check(*pvk, inputs_view(public_inputs@), r@),
            Err(e) => e == SynthesisError::MalformedVerifyingKey && !(pvk.ic@.len() > 0
                && inputs_fit(inputs_view(public_inputs@), pvk.ic@.len())),
        },
{
    let ghost inputs = inputs_view(public_inputs@);
    if pvk.ic.len() == 0 || !check_inputs(public_inputs, pvk.ic.len()) {
        return Err(SynthesisError::MalformedVerifyingKey);
    }
    let n = public_inputs.len();
    proof {
        assert forall|j: int| 0 <= j < public_inputs@.len() implies (
        #[trigger] public_inputs@[j])@.len() == pvk.ic@.len() - 1 by {
            assert(inputs[j].len() == public_inputs@[j]@.len());
        }
    }
    let r_sum = sum_of_powers(r, n);
    let powers_of_r = structured_scalar_power(n, r);
    let count = pvk.ic.len() - 1;
    let scalars = combine_inputs(public_inputs, &powers_of_r, r, count);
    let bases = g1_range(&pvk.ic, 1, pvk.ic.len());
    proof {
        assert(scalars@.len() == fr_values(scalars@).len());
    }
    let g_ic = pvk.ic[0].scale(&r_sum).add(&multiexponentiation(&bases, &scalars));
    proof {
        assert(g1_views(pvk.ic@)[0] == pvk.ic@[0]@);
        assert(g_ic@ == input_commitment(g1_views(pvk.ic@), inputs, r@));
    }
    Ok(PairingTuple::from_miller(miller_loop_pair(&g_ic, &pvk.gamma_g2)))
}

/// Verifies the aggregate `proof` of a batch of Groth16 proofs for the verifying key `pvk`,
/// where `public_inputs` holds the public inputs of each proof of the batch in turn. The
/// answer `Ok(false)` says that the proof is wrong; an error says that the inputs do not fit
/// together, or that a challenge could not be drawn.
pub fn verify_aggregate_proof(
    ip_verifier_srs: &VerifierSRS,
    pvk: &PreparedVerifyingKey,
    public_inputs: &Vec<Vec<Fr>>,
    proof: &AggregateProof,
) -> (r: Result<bool, SynthesisError>)
    ensures
        r == verification(ip_verifier_srs@, *pvk, inputs_view(public_inputs@), proof@),
{
    let ghost inputs = inputs_view(public_inputs@);
    if !check_inputs(public_inputs, pvk.ic.len()) {
        return Err(SynthesisError::MalformedVerifyingKey);
    }
    if !check_batch_size(public_inputs.len()) {
        return Err(SynthesisError::MalformedProofs);
    }
    let n = public_inputs.len();
    // the randomness of the linear combination of the proofs
    let r = match derive_randomness(&proof.com_ab, &proof.com_c) {
        Some(r) => r,
        None => {
            return Err(SynthesisError::ChallengeExhausted);
        },
    };
    // the two arguments
    let tipp = match verify_tipp(
        ip_verifier_srs,
        &proof.com_ab,
        &proof.ip_ab,
        &proof.proof_ab,
        &r,
    ) {
        Ok(tuple) => tuple,
        Err(e) => {
            return Err(e);
        },
    };
    let mipp = match verify_mipp(ip_verifier_srs, &proof.com_c, &proof.agg_c, &proof.proof_c) {
        Ok(tuple) => tuple,
        Err(e) => {
            return Err(e);
        },
    };
    // the three parts of the summed Groth16 equation
    let left = verify_left(pvk, &r, n);
    let right = verify_right(pvk, &proof.agg_c);
    let middle = match verify_middle(pvk, public_inputs, &r) {
        Ok(tuple) => tuple,
        Err(e) => {
            proof {
                assert(inputs[0].len() + 1 == pvk.ic@.len());
            }
            return Err(e);
        },
    };
    // the aggregated inner product is what the product of all the checks is to give
    let mut acc = PairingTuple::from_pair(Fqk::one(), proof.ip_ab);
    acc.merge(&tipp);
    acc.merge(&mipp);
    acc.merge(&left);
    acc.merge(&right);
    acc.merge(&middle);
    Ok(acc.verify())
}

} // verus!
