//! The verifier's side of the multi-exponentiation argument.
//!
//! As for the pairing product, the verifier draws the challenges again from the record and
//! folds the commitment and the claimed sum with them. The final values are then checked in
//! two ways: the final point times the final scalar is to be the folded sum, which needs no
//! pairing, and the folded commitment is to be that of the final point under the folded key.
use crate::accumulator::{merged, PairingTuple, PairingTupleView};
use crate::curve::{
    fqk_one, fqk_product, g1_scaled, g1_sum, g1_views, g2_views, infinity_encoding, miller_loop,
    Fqk, G1, G2,
};
use crate::error::SynthesisError;
use crate::field::{fr_encoding, fr_inverse, fr_values, Fr};
use crate::inner_product::{multiexponentiation, pairing_miller_affine};
use crate::kzg::{invalid_check, kzg_check_g2, verify_kzg_opening_g2};
use crate::mipp::mipp_challenge_input;
use crate::poly::evaluation_product;
use crate::proofs::{
    fqk_pair, g1_pair, GipaMIPP, GipaMippView, MIPPProof, MippProofView, Pair,
};
use crate::srs::{VerifierSRS, VerifierSrsView};
use crate::tipp::latest;
use crate::transcript::{are_inverses, challenge, derive_challenge, derive_challenge_pair};
use crate::vectors::fr_reversed;
use crate::verify_tipp::{folded_t, folded_u, round_count, Challenges};
use vstd::prelude::*;

verus! {

/// The challenges of the first `k` rounds, drawn again from the record.
pub open spec fn mipp_replay(comms: Seq<(Pair, Pair)>, z_vec: Seq<Pair>, k: nat) -> Option<
    Challenges,
>
    decreases k,
{
    if k == 0 {
        Some(Challenges { challenges: Seq::empty(), challenges_inv: Seq::empty() })
    } else {
        let i = (k - 1) as nat;
        match mipp_replay(comms, z_vec, i) {
            None => None,
            Some(p) => match challenge(
                mipp_challenge_input(
                    latest(p.challenges),
                    comms[i as int].0,
                    comms[i as int].1,
                    z_vec[i as int].0,
                    z_vec[i as int].1,
                ),
            ) {
                None => None,
                Some(h) => Some(
                    Challenges {
                        challenges: p.challenges.push(fr_inverse(h)),
                        challenges_inv: p.challenges_inv.push(h),
                    },
                ),
            },
        }
    }
}

/// The claimed sum `Z`, folded by the first `k` rounds: each round adds its left term times
/// the challenge and its right term times the inverse challenge.
pub open spec fn folded_sum(z: Seq<u8>, z_vec: Seq<Pair>, c: Challenges, k: nat) -> Seq<u8>
    decreases k,
{
    if k == 0 {
        z
    } else {
        let i = (k - 1) as int;
        g1_sum(
            g1_sum(
                folded_sum(z, z_vec, c, (k - 1) as nat),
                g1_scaled(z_vec[i].0, c.challenges[i]),
            ),
            g1_scaled(z_vec[i].1, c.challenges_inv[i]),
        )
    }
}

/// What the verifier's recursion arrives at: the folded commitment, the folded sum, and the
/// challenges.
pub struct MippFolded {
    pub t: Seq<u8>,
    pub u: Seq<u8>,
    pub z: Seq<u8>,
    pub challenges: Challenges,
}

/// The verifier's recursion on the record `record`, from the commitment `com` and the
/// claimed sum `z`. There is none where a challenge cannot be drawn.
pub open spec fn mipp_verification_fold(com: Pair, z: Seq<u8>, record: GipaMippView) -> Option<
    MippFolded,
> {
    let k = round_count(record.comms.len(), record.z_vec.len());
    match mipp_replay(record.comms, record.z_vec, k) {
        None => None,
        Some(c) => Some(
            MippFolded {
                t: folded_t(com.0, record.comms, c, k),
                u: folded_u(com.1, record.comms, c, k),
                z: folded_sum(z, record.z_vec, c, k),
                challenges: c,
            },
        ),
    }
}

/// Where the challenge of round `i` cannot be drawn, no later round has challenges either.
pub proof fn lemma_mipp_replay_fails_on(
    comms: Seq<(Pair, Pair)>,
    z_vec: Seq<Pair>,
    i: nat,
    k: nat,
)
    requires
        i < k,
        mipp_replay(comms, z_vec, i + 1).is_none(),
    ensures
        mipp_replay(comms, z_vec, k).is_none(),
    decreases k,
{
    if k > i + 1 {
        lemma_mipp_replay_fails_on(comms, z_vec, i, (k - 1) as nat);
    }
}

/// The rounds that have challenges have one challenge each.
pub proof fn lemma_mipp_replay_len(comms: Seq<(Pair, Pair)>, z_vec: Seq<Pair>, k: nat)
    ensures
        mipp_replay(comms, z_vec, k) matches Some(c) ==> c.challenges.len() == k
            && c.challenges_inv.len() == k,
    decreases k,
{
    if k > 0 {
        lemma_mipp_replay_len(comms, z_vec, (k - 1) as nat);
    }
}

/// Draws the challenges of the record again.
fn replay_mipp_challenges(record: &GipaMIPP) -> (r: Result<(Vec<Fr>, Vec<Fr>), SynthesisError>)
    ensures
        match r {
            Ok((challenges, challenges_inv)) => mipp_replay(
                record@.comms,
                record@.z_vec,
                round_count(record@.comms.len(), record@.z_vec.len()),
            ) == Some(
                Challenges {
                    challenges: fr_values(challenges@),
                    challenges_inv: fr_values(challenges_inv@),
                },
            ) && are_inverses(challenges@, challenges_inv@),
            Err(e) => e == SynthesisError::ChallengeExhausted && mipp_replay(
                record@.comms,
                record@.z_vec,
                round_count(record@.comms.len(), record@.z_vec.len()),
            ).is_none(),
        },
{
    let rounds = if record.comms.len() <= record.z_vec.len() {
        record.comms.len()
    } else {
        record.z_vec.len()
    };
    let mut challenges: Vec<Fr> = Vec::new();
    let mut challenges_inv: Vec<Fr> = Vec::new();
    let mut i: usize = 0;
    proof {
        assert(fr_values(challenges@) =~= Seq::<nat>::empty());
        assert(fr_values(challenges_inv@) =~= Seq::<nat>::empty());
    }
    while i < rounds
        invariant
            i <= rounds,
            rounds == round_count(record@.comms.len(), record@.z_vec.len()),
            rounds <= record.comms@.len(),
            rounds <= record.z_vec@.len(),
            are_inverses(challenges@, challenges_inv@),
            mipp_replay(record@.comms, record@.z_vec, i as nat) == Some(
                Challenges {
                    challenges: fr_values(challenges@),
                    challenges_inv: fr_values(challenges_inv@),
                },
            ),
        decreases rounds - i,
    {
        let (tu_l, tu_r) = record.comms[i];
        let (z_l, z_r) = record.z_vec[i];
        let previous = if challenges.len() == 0 {
            Fr::zero()
        } else {
            challenges[challenges.len() - 1]
        };
        let mut input: Vec<u8> = Vec::new();
        previous.write_to(&mut input);
        tu_r.0.write_to(&mut input);
        tu_r.1.write_to(&mut input);
        tu_l.0.write_to(&mut input);
        tu_l.1.write_to(&mut input);
        z_r.write_to(&mut input);
        z_l.write_to(&mut input);
        proof {
            assert(record@.comms[i as int] == (fqk_pair(tu_l), fqk_pair(tu_r)));
            assert(record@.z_vec[i as int] == g1_pair((z_l, z_r)));
            assert(input@ =~= mipp_challenge_input(
                latest(fr_values(challenges@)),
                record@.comms[i as int].0,
                record@.comms[i as int].1,
                record@.z_vec[i as int].0,
                record@.z_vec[i as int].1,
            ));
        }
        let (c_inv, c) = match derive_challenge_pair(&input) {
            Some(found) => found,
            None => {
                proof {
                    lemma_mipp_replay_fails_on(
                        record@.comms,
                        record@.z_vec,
                        i as nat,
                        rounds as nat,
                    );
                }
                return Err(SynthesisError::ChallengeExhausted);
            },
        };
        let ghost ch_before = fr_values(challenges@);
        let ghost ch_inv_before = fr_values(challenges_inv@);
        challenges.push(c);
        challenges_inv.push(c_inv);
        proof {
            assert(fr_values(challenges@) =~= ch_before.push(c@));
            assert(fr_values(challenges_inv@) =~= ch_inv_before.push(c_inv@));
        }
        i = i + 1;
    }
    Ok((challenges, challenges_inv))
}

/// Folds the commitment `com_c` and the claimed sum `z` over the rounds of the record, with
/// the challenges drawn again from it. It returns the folded commitment, the folded sum, the
/// challenges and the inverse challenges, and fails where no challenge can be drawn.
pub fn gipa_verify_mipp(com_c: &(Fqk, Fqk), z: &G1, proof: &GipaMIPP) -> (r: Result<
    ((Fqk, Fqk), G1, Vec<Fr>, Vec<Fr>),
    SynthesisError,
>)
    ensures
        match r {
            Ok((final_tu, final_z, challenges, challenges_inv)) => mipp_verification_fold(
                fqk_pair(*com_c),
                z@,
                proof@,
            ) == Some(
                MippFolded {
                    t: final_tu.0@,
                    u: final_tu.1@,
                    z: final_z@,
                    challenges: Challenges {
                        challenges: fr_values(challenges@),
                        challenges_inv: fr_values(challenges_inv@),
                    },
                },
            ),
            Err(e) => e == SynthesisError::ChallengeExhausted && mipp_verification_fold(
                fqk_pair(*com_c),
                z@,
                proof@,
            ).is_none(),
        },
        r matches Ok(done) ==> are_inverses(done.2@, done.3@),
{
    let (challenges, challenges_inv) = match replay_mipp_challenges(proof) {
        Ok(found) => found,
        Err(e) => {
            return Err(e);
        },
    };
    let ghost c = Challenges {
        challenges: fr_values(challenges@),
        challenges_inv: fr_values(challenges_inv@),
    };
    let rounds = challenges.len();
    proof {
        lemma_mipp_replay_len(
            proof@.comms,
            proof@.z_vec,
            round_count(proof@.comms.len(), proof@.z_vec.len()),
        );
        assert(fr_values(challenges@).len() == challenges@.len());
        assert(fr_values(challenges_inv@).len() == challenges_inv@.len());
    }
    let mut comm_t = com_c.0;
    let mut comm_u = com_c.1;
    let mut z = *z;
    let ghost z0 = z@;
    let mut i: usize = 0;
    while i < rounds
        invariant
            i <= rounds,
            rounds == round_count(proof@.comms.len(), proof@.z_vec.len()),
            rounds <= proof.comms@.len(),
            rounds <= proof.z_vec@.len(),
            rounds == challenges@.len(),
            rounds == challenges_inv@.len(),
            c == (Challenges {
                challenges: fr_values(challenges@),
                challenges_inv: fr_values(challenges_inv@),
            }),
            comm_t@ == folded_t(com_c.0@, proof@.comms, c, i as nat),
            comm_u@ == folded_u(com_c.1@, proof@.comms, c, i as nat),
            z@ == folded_sum(z0, proof@.z_vec, c, i as nat),
        decreases rounds - i,
    {
        let ((t_l, u_l), (t_r, u_r)) = proof.comms[i];
        let (z_l, z_r) = proof.z_vec[i];
        let x = &challenges[i];
        let x_inv = &challenges_inv[i];
        proof {
            assert(proof@.comms[i as int] == (fqk_pair((t_l, u_l)), fqk_pair((t_r, u_r))));
            assert(proof@.z_vec[i as int] == g1_pair((z_l, z_r)));
            assert(c.challenges[i as int] == x@);
            assert(c.challenges_inv[i as int] == x_inv@);
        }
        comm_t = comm_t.mul(&t_l.pow(x)).mul(&t_r.pow(x_inv));
        comm_u = comm_u.mul(&u_l.pow(x)).mul(&u_r.pow(x_inv));
        z = z.add(&z_l.scale(x)).add(&z_r.scale(x_inv));
        i = i + 1;
    }
    Ok(((comm_t, comm_u), z, challenges, challenges_inv))
}

/// What the challenge point of the key opening is drawn from: the last challenge of the
/// recursion and the folded key.
pub open spec fn mipp_opening_transcript(last: nat, v: Pair) -> Seq<u8> {
    fr_encoding(last) + v.0 + v.1
}

/// The final point times the final scalar, as the multi-exponentiation of one term gives it.
pub open spec fn mipp_final_term(record: GipaMippView) -> Seq<u8> {
    g1_sum(infinity_encoding(48), g1_scaled(record.final_c, record.final_r))
}

/// The equation that the folded commitment is to meet: the product of the pairings of the
/// final point with the two entries of the folded key is to be the product of the folded `T`
/// and `U`.
pub open spec fn mipp_final_check(record: GipaMippView, f: MippFolded) -> PairingTupleView {
    PairingTupleView {
        miller: miller_loop(
            seq![record.final_c, record.final_c],
            seq![record.final_vkey.0, record.final_vkey.1],
        ),
        constant: fqk_product(fqk_product(fqk_one(), f.t), f.u),
        valid: true,
    }
}

/// The check of a proof of a multi-exponentiation: the check that fails where the final
/// point times the final scalar is not the folded sum, and else the opening of the folded
/// key and the equation of the folded commitment, merged into one.
pub open spec fn mipp_check(srs: VerifierSrsView, com: Pair, z: Seq<u8>, proof: MippProofView)
    -> Result<PairingTupleView, SynthesisError> {
    match mipp_verification_fold(com, z, proof.gipa) {
        None => Err(SynthesisError::ChallengeExhausted),
        Some(f) => match challenge(
            mipp_opening_transcript(latest(f.challenges.challenges), proof.gipa.final_vkey),
        ) {
            None => Err(SynthesisError::ChallengeExhausted),
            Some(point) => if mipp_final_term(proof.gipa) != f.z {
                Ok(invalid_check())
            } else {
                Ok(
                    merged(
                        kzg_check_g2(
                            srs,
                            proof.gipa.final_vkey,
                            proof.vkey_opening,
                            evaluation_product(f.challenges.challenges_inv.reverse(), point, 1),
                            point,
                        ),
                        mipp_final_check(proof.gipa, f),
                    ),
                )
            },
        },
    }
}

/// The check of the proof `proof` that `agg_c` is the multi-exponentiation of the vector
/// committed to in `com_c`, as one pairing tuple. It fails where no challenge can be drawn.
pub fn verify_mipp(v_srs: &VerifierSRS, com_c: &(Fqk, Fqk), agg_c: &G1, proof: &MIPPProof) -> (r:
    Result<PairingTuple, SynthesisError>)
    ensures
        match r {
            Ok(tuple) => mipp_check(v_srs@, fqk_pair(*com_c), agg_c@, proof@) == Ok::<
                PairingTupleView,
                SynthesisError,
            >(tuple@),
            Err(e) => mipp_check(v_srs@, fqk_pair(*com_c), agg_c@, proof@) == Err::<
                PairingTupleView,
                SynthesisError,
            >(e),
        },
{
    let (com_tu, com_z, challenges, challenges_inv) = match gipa_verify_mipp(
        com_c,
        agg_c,
        &proof.gipa,
    ) {
        Ok(done) => done,
        Err(e) => {
            return Err(e);
        },
    };
    let ghost f = mipp_verification_fold(fqk_pair(*com_c), agg_c@, proof.gipa@).unwrap();
    let last = if challenges.len() == 0 {
        Fr::zero()
    } else {
        challenges[challenges.len() - 1]
    };
    let final_vkey = proof.gipa.final_vkey;
    // the polynomial of the folded key takes the inverse challenges last first
    let challenges_inv = fr_reversed(&challenges_inv);
    let mut input: Vec<u8> = Vec::new();
    last.write_to(&mut input);
    final_vkey.0.write_to(&mut input);
    final_vkey.1.write_to(&mut input);
    proof {
        assert(input@ =~= mipp_opening_transcript(
            latest(f.challenges.challenges),
            proof@.gipa.final_vkey,
        ));
    }
    let c = match derive_challenge(&input) {
        Some(c) => c,
        None => {
            return Err(SynthesisError::ChallengeExhausted);
        },
    };
    let (t, u) = com_tu;
    let final_c = proof.gipa.final_c;
    let final_r = proof.gipa.final_r;
    // Z = c^r needs no pairing: where it fails, the whole check is made to fail
    let mut points: Vec<G1> = Vec::new();
    points.push(final_c);
    let mut scalars: Vec<Fr> = Vec::new();
    scalars.push(final_r);
    let final_z = multiexponentiation(&points, &scalars);
    proof {
        let ps = g1_views(points@);
        let ss = fr_values(scalars@);
        assert(ps.drop_last().len() == 0);
        assert(ps.last() == final_c@);
        assert(ss.last() == final_r@);
        assert(crate::inner_product::g1_multiexp(ps.drop_last(), ss.drop_last())
            == infinity_encoding(48));
        assert(final_z@ == mipp_final_term(proof@.gipa));
    }
    if !final_z.is_equal(&com_z) {
        return Ok(PairingTuple::new_invalid());
    }
    // the opening of the folded key
    let mut vtuple = verify_kzg_opening_g2(
        v_srs,
        &final_vkey,
        &proof.vkey_opening,
        &challenges_inv,
        &Fr::one(),
        &c,
    );
    // T = e(C, v1) and U = e(C, v2)
    let mut left: Vec<G1> = Vec::new();
    let mut right: Vec<G2> = Vec::new();
    left.push(final_c);
    right.push(final_vkey.0);
    let mut out = Fqk::one().mul(&t);
    left.push(final_c);
    right.push(final_vkey.1);
    out = out.mul(&u);
    proof {
        assert(g1_views(left@) =~= seq![proof@.gipa.final_c, proof@.gipa.final_c]);
        assert(g2_views(right@) =~= seq![proof@.gipa.final_vkey.0, proof@.gipa.final_vkey.1]);
    }
    let pair = PairingTuple::from_pair(pairing_miller_affine(&left, &right), out);
    vtuple.merge(&pair);
    Ok(vtuple)
}

} // verus!
