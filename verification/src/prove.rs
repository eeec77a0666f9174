//! Aggregation: a batch of Groth16 proofs for one verifying key becomes one proof.
use crate::batch::{check_batch_size, valid_batch_size};
use crate::commit::{
    key_has_len, pair, pair_commitment, single_commitment, single_g1, vkey_scaled,
};
use crate::curve::{g1_views, g2_views, G1, G2};
use crate::error::SynthesisError;
use crate::field::{fr_inverse, fr_values};
use crate::inner_product::{g1_multiexp, multiexponentiation, pairing, pairing_product};
use crate::mipp::{mipp_proof, mipp_run, mipp_start, prove_mipp};
use crate::proofs::{fqk_pair, AggregateProof, AggregateProofView, Pair, Proof};
use crate::rescale::rescale;
use crate::shape_laws::{lemma_mipp_rounds, lemma_tipp_rounds};
use crate::srs::{powers, srs_vkey, srs_wkey, SRS};
use crate::tipp::{prove_tipp, tipp_proof, tipp_run, tipp_start};
use crate::transcript::{challenge, derive_challenge};
use crate::vectors::g1_scale_each;
use vstd::prelude::*;

verus! {

/// The first points of a batch of proofs.
pub open spec fn proofs_a(proofs: Seq<Proof>) -> Seq<Seq<u8>> {
    Seq::new(proofs.len(), |i: int| proofs[i].a@)
}

/// The second points of a batch of proofs.
pub open spec fn proofs_b(proofs: Seq<Proof>) -> Seq<Seq<u8>> {
    Seq::new(proofs.len(), |i: int| proofs[i].b@)
}

/// The third points of a batch of proofs.
pub open spec fn proofs_c(proofs: Seq<Proof>) -> Seq<Seq<u8>> {
    Seq::new(proofs.len(), |i: int| proofs[i].c@)
}

/// What the randomness `r` of an aggregation is drawn from: the two commitments.
pub open spec fn randomness_transcript(com_ab: Pair, com_c: Pair) -> Seq<u8> {
    com_ab.0 + com_ab.1 + com_c.0 + com_c.1
}

/// The aggregate of the batch `proofs` under the reference string `srs`.
///
/// The vectors `A`, `B` and `C` of the proofs are committed to, and the randomness `r` is
/// drawn from the commitments. `A` is raised to the powers of `r`, entry by entry, and the
/// key `v` to the powers of its inverse. The aggregate holds the commitments, the pairing
/// product of the scaled `A` with `B`, the sum of `C` by the powers of `r`, and the proofs
/// of both.
pub open spec fn aggregate(srs: SRS, proofs: Seq<Proof>) -> Result<
    AggregateProofView,
    SynthesisError,
> {
    let n = proofs.len();
    let v = srs_vkey(srs);
    let w = srs_wkey(srs);
    let a = proofs_a(proofs);
    let b = proofs_b(proofs);
    let c = proofs_c(proofs);
    if !key_has_len(v, n) || !key_has_len(w, n) {
        Err(SynthesisError::MalformedSrs)
    } else if !valid_batch_size(n) {
        Err(SynthesisError::MalformedProofs)
    } else {
        let com_ab = pair_commitment(v, w, a, b);
        let com_c = single_commitment(v, c);
        match challenge(randomness_transcript(com_ab, com_c)) {
            None => Err(SynthesisError::ChallengeExhausted),
            Some(r) => {
                let r_vec = powers(r, n);
                let a_r = g1_scale_each(a, r_vec);
                let v_r = vkey_scaled(v, powers(fr_inverse(r), n));
                match tipp_proof(srs, a_r, b, v_r, w, r) {
                    Err(e) => Err(e),
                    Ok(proof_ab) => match mipp_proof(srs, c, r_vec, v) {
                        Err(e) => Err(e),
                        Ok(proof_c) => Ok(
                            AggregateProofView {
                                com_ab,
                                com_c,
                                ip_ab: pairing_product(a_r, b),
                                agg_c: g1_multiexp(c, r_vec),
                                proof_ab,
                                proof_c,
                            },
                        ),
                    },
                }
            },
        }
    }
}

/// The pair commitment to the first points of the proofs, each raised to its power of `r`,
/// and their second points, under the key `v` raised to the powers of the inverse of `r`.
pub open spec fn rescaled_commitment(srs: SRS, proofs: Seq<Proof>, r: nat) -> Pair {
    pair_commitment(
        vkey_scaled(srs_vkey(srs), powers(fr_inverse(r), proofs.len())),
        srs_wkey(srs),
        g1_scale_each(proofs_a(proofs), powers(r, proofs.len())),
        proofs_b(proofs),
    )
}

/// The three vectors of points of a batch of proofs.
fn split_proofs(proofs: &Vec<Proof>) -> (r: (Vec<G1>, Vec<G2>, Vec<G1>))
    ensures
        g1_views(r.0@) == proofs_a(proofs@),
        g2_views(r.1@) == proofs_b(proofs@),
        g1_views(r.2@) == proofs_c(proofs@),
{
    let mut a: Vec<G1> = Vec::new();
    let mut b: Vec<G2> = Vec::new();
    let mut c: Vec<G1> = Vec::new();
    let mut i: usize = 0;
    while i < proofs.len()
        invariant
            i <= proofs.len(),
            g1_views(a@) == proofs_a(proofs@).take(i as int),
            g2_views(b@) == proofs_b(proofs@).take(i as int),
            g1_views(c@) == proofs_c(proofs@).take(i as int),
        decreases proofs.len() - i,
    {
        let ghost a_before = g1_views(a@);
        let ghost b_before = g2_views(b@);
        let ghost c_before = g1_views(c@);
        a.push(proofs[i].a);
        b.push(proofs[i].b);
        c.push(proofs[i].c);
        proof {
            assert(g1_views(a@) =~= a_before.push(proofs@[i as int].a@));
            assert(g2_views(b@) =~= b_before.push(proofs@[i as int].b@));
            assert(g1_views(c@) =~= c_before.push(proofs@[i as int].c@));
            assert(proofs_a(proofs@).take(i + 1) =~= proofs_a(proofs@).take(i as int).push(
                proofs@[i as int].a@,
            ));
            assert(proofs_b(proofs@).take(i + 1) =~= proofs_b(proofs@).take(i as int).push(
                proofs@[i as int].b@,
            ));
            assert(proofs_c(proofs@).take(i + 1) =~= proofs_c(proofs@).take(i as int).push(
                proofs@[i as int].c@,
            ));
        }
        i = i + 1;
    }
    proof {
        assert(proofs_a(proofs@).take(proofs.len() as int) =~= proofs_a(proofs@));
        assert(proofs_b(proofs@).take(proofs.len() as int) =~= proofs_b(proofs@));
        assert(proofs_c(proofs@).take(proofs.len() as int) =~= proofs_c(proofs@));
    }
    (a, b, c)
}

/// Aggregates the batch `proofs`, whose size must be a power of two and at least two. It
/// fails with `MalformedSrs` where the reference string is not for batches of that size, with
/// `MalformedProofs` where the size is not valid, and with `ChallengeExhausted` where no
/// challenge can be drawn. The same batch always gives the same aggregate. The commitment
/// `com_ab` of the aggregate, which is made to the proofs' points as they are, is also the
/// commitment to the rescaled points that the pairing product is proved of.
pub fn aggregate_proofs(ip_srs: &SRS, proofs: &Vec<Proof>) -> (r: Result<
    AggregateProof,
    SynthesisError,
>)
    ensures
        match r {
            Ok(p) => aggregate(*ip_srs, proofs@) == Ok::<AggregateProofView, SynthesisError>(p@),
            Err(e) => aggregate(*ip_srs, proofs@) == Err::<AggregateProofView, SynthesisError>(
                e,
            ),
        },
        r matches Ok(p) ==> challenge(randomness_transcript(p@.com_ab, p@.com_c)) matches Some(
            x,
        ) && p@.com_ab == rescaled_commitment(*ip_srs, proofs@, x),
{
    let (vkey, wkey) = ip_srs.get_commitment_keys();
    if !vkey.has_correct_len(proofs.len()) || !wkey.has_correct_len(proofs.len()) {
        return Err(SynthesisError::MalformedSrs);
    }
    if !check_batch_size(proofs.len()) {
        return Err(SynthesisError::MalformedProofs);
    }
    // the commitments to A and B, and to C, are what the verifier starts from
    let (a, b, c) = split_proofs(proofs);
    proof {
        assert(a@.len() == g1_views(a@).len());
        assert(b@.len() == g2_views(b@).len());
        assert(c@.len() == g1_views(c@).len());
    }
    let com_ab = match pair(&vkey, &wkey, &a, &b) {
        Ok(com) => com,
        Err(_) => vstd::pervasive::unreached(),
    };
    let com_c = match single_g1(&vkey, &c) {
        Ok(com) => com,
        Err(_) => vstd::pervasive::unreached(),
    };
    // the randomness of the linear combination of the proofs
    let mut input: Vec<u8> = Vec::new();
    com_ab.0.write_to(&mut input);
    com_ab.1.write_to(&mut input);
    com_c.0.write_to(&mut input);
    com_c.1.write_to(&mut input);
    proof {
        assert(input@ =~= randomness_transcript(fqk_pair(com_ab), fqk_pair(com_c)));
    }
    let r = match derive_challenge(&input) {
        Some(r) => r,
        None => {
            return Err(SynthesisError::ChallengeExhausted);
        },
    };
    // A^r and v^(r^-1): the commitment to both is the commitment to A and v
    let (a_r, r_vec, vkey_r_inv) = match rescale(&a, &vkey, &r) {
        Ok(scaled) => scaled,
        Err(_) => vstd::pervasive::unreached(),
    };
    proof {
        assert(a_r@.len() == g1_views(a_r@).len());
        assert(r_vec@.len() == fr_values(r_vec@).len());
        assert(fqk_pair(com_ab) == pair_commitment(
            vkey_r_inv@,
            wkey@,
            g1_views(a_r@),
            g2_views(b@),
        ));
    }
    let tipa_proof_ab = prove_tipp(ip_srs, &a_r, &b, &vkey_r_inv, &wkey, &r);
    let tipa_proof_c = prove_mipp(ip_srs, &c, &r_vec, &vkey);
    let ip_ab = pairing(&a_r, &b);
    let agg_c = multiexponentiation(&c, &r_vec);
    let proof_ab = match tipa_proof_ab {
        Ok(p) => p,
        Err(e) => {
            return Err(e);
        },
    };
    let proof_c = match tipa_proof_c {
        Ok(p) => p,
        Err(e) => {
            return Err(e);
        },
    };
    Ok(AggregateProof { com_ab, com_c, ip_ab, agg_c, proof_ab, proof_c })
}

/// Two aggregates of the same batch under the same reference string are the same.
pub proof fn lemma_aggregation_is_deterministic(
    srs: SRS,
    proofs: Seq<Proof>,
    first: AggregateProofView,
    second: AggregateProofView,
)
    requires
        aggregate(srs, proofs) == Ok::<AggregateProofView, SynthesisError>(first),
        aggregate(srs, proofs) == Ok::<AggregateProofView, SynthesisError>(second),
    ensures
        first == second,
{
}

/// A batch of one proof is not aggregated, nor is one whose size is no power of two.
pub proof fn lemma_aggregation_rejects_invalid_sizes(srs: SRS, proofs: Seq<Proof>)
    requires
        !valid_batch_size(proofs.len()),
    ensures
        aggregate(srs, proofs) is Err,
{
}

/// Where the reference string is for the size of the batch, and that size is valid, the
/// aggregation succeeds, unless a challenge cannot be drawn.
pub proof fn lemma_aggregation_succeeds(srs: SRS, proofs: Seq<Proof>)
    requires
        valid_batch_size(proofs.len()),
        srs.n == proofs.len(),
        key_has_len(srs_vkey(srs), proofs.len()),
        key_has_len(srs_wkey(srs), proofs.len()),
    ensures
        aggregate(srs, proofs) is Ok || aggregate(srs, proofs) == Err::<
            AggregateProofView,
            SynthesisError,
        >(SynthesisError::ChallengeExhausted),
{
    let n = proofs.len();
    let v = srs_vkey(srs);
    let w = srs_wkey(srs);
    let (a, b, c) = (proofs_a(proofs), proofs_b(proofs), proofs_c(proofs));
    let com_ab = pair_commitment(v, w, a, b);
    let com_c = single_commitment(v, c);
    match challenge(randomness_transcript(com_ab, com_c)) {
        None => {},
        Some(r) => {
            let r_vec = powers(r, n);
            let a_r = g1_scale_each(a, r_vec);
            let v_r = vkey_scaled(v, powers(fr_inverse(r), n));
            match tipp_run(tipp_start(a_r, b, v_r, w)) {
                None => {},
                Some(f) => {
                    lemma_tipp_rounds(a_r, b, v_r, w, f, fr_inverse(r));
                    lemma_tipp_rounds(a_r, b, v_r, w, f, 1);
                },
            }
            match mipp_run(mipp_start(c, r_vec, v)) {
                None => {},
                Some(f) => {
                    lemma_mipp_rounds(c, r_vec, v, f, 1);
                },
            }
        },
    }
}

/// Where the reference string claims another size than that of the batch, the aggregation
/// fails.
pub proof fn lemma_aggregation_needs_matching_size(srs: SRS, proofs: Seq<Proof>)
    requires
        srs.n != proofs.len(),
    ensures
        aggregate(srs, proofs) is Err,
{
    let n = proofs.len();
    let v = srs_vkey(srs);
    let w = srs_wkey(srs);
    let (a, b, c) = (proofs_a(proofs), proofs_b(proofs), proofs_c(proofs));
    if key_has_len(v, n) && key_has_len(w, n) && valid_batch_size(n) {
        let com_ab = pair_commitment(v, w, a, b);
        let com_c = single_commitment(v, c);
        match challenge(randomness_transcript(com_ab, com_c)) {
            None => {},
            Some(r) => {
                let r_vec = powers(r, n);
                let a_r = g1_scale_each(a, r_vec);
                let v_r = vkey_scaled(v, powers(fr_inverse(r), n));
                match tipp_run(tipp_start(a_r, b, v_r, w)) {
                    None => {},
                    Some(f) => {
                        lemma_tipp_rounds(a_r, b, v_r, w, f, fr_inverse(r));
                    },
                }
            },
        }
    }
}

} // verus!
