//! The verifier's side of the pairing-product argument.
//!
//! The verifier does not fold vectors. It draws the challenges again from what the prover put
//! on record, folds the commitment and the claimed product with them, and is left with one
//! equation between pairings of the prover's final values, and with the openings of the two
//! folded keys.
use crate::accumulator::{merged, PairingTuple, PairingTupleView};
use crate::curve::{fqk_one, fqk_power, fqk_product, g1_views, g2_views, miller_loop, Fqk, G1, G2};
use crate::error::SynthesisError;
use crate::field::{fr_inverse, fr_values, Fr};
use crate::inner_product::pairing_miller_affine;
use crate::kzg::{kzg_check_g1, kzg_check_g2, verify_kzg_opening_g1, verify_kzg_opening_g2};
use crate::poly::evaluation_product;
use crate::proofs::{fqk_pair, GipaTIPP, GipaTippView, Pair, TIPPProof, TippProofView};
use crate::srs::{VerifierSRS, VerifierSrsView};
use crate::tipp::{latest, tipp_challenge_input};
use crate::transcript::{are_inverses, challenge, derive_challenge, derive_challenge_pair};
use crate::vectors::fr_reversed;
use vstd::prelude::*;

verus! {

/// The challenges of a recursion and their inverses, in the order in which they were drawn.
pub struct Challenges {
    pub challenges: Seq<nat>,
    pub challenges_inv: Seq<nat>,
}

/// The number of rounds that a record holds: as many as it has both commitments and
/// products for.
pub open spec fn round_count(comms: nat, z_vec: nat) -> nat {
    if comms <= z_vec {
        comms
    } else {
        z_vec
    }
}

/// The challenges of the first `k` rounds, drawn again from the record.
pub open spec fn tipp_replay(comms: Seq<(Pair, Pair)>, z_vec: Seq<Pair>, k: nat) -> Option<
    Challenges,
>
    decreases k,
{
    if k == 0 {
        Some(Challenges { challenges: Seq::empty(), challenges_inv: Seq::empty() })
    } else {
        let i = (k - 1) as nat;
        match tipp_replay(comms, z_vec, i) {
            None => None,
            Some(p) => match challenge(
                tipp_challenge_input(
                    latest(p.challenges),
                    comms[i as int].0,
                    comms[i as int].1,
                    z_vec[i as int].0,
                    z_vec[i as int].1,
                ),
            ) {
                None => None,
                Some(h) => Some(
                    Challenges {
                        challenges: p.challenges.push(fr_inverse(h)),
                        challenges_inv: p.challenges_inv.push(h),
                    },
                ),
            },
        }
    }
}

/// A value folded by one round: times the round's left value raised to the challenge, times
/// its right value raised to the inverse challenge.
pub open spec fn fqk_fold(acc: Seq<u8>, left: Seq<u8>, right: Seq<u8>, c: nat, c_inv: nat)
    -> Seq<u8> {
    fqk_product(fqk_product(acc, fqk_power(left, c)), fqk_power(right, c_inv))
}

/// The first part `T` of the commitment, folded by the first `k` rounds.
pub open spec fn folded_t(t: Seq<u8>, comms: Seq<(Pair, Pair)>, c: Challenges, k: nat) -> Seq<u8>
    decreases k,
{
    if k == 0 {
        t
    } else {
        let i = (k - 1) as int;
        fqk_fold(
            folded_t(t, comms, c, (k - 1) as nat),
            comms[i].0.0,
            comms[i].1.0,
            c.challenges[i],
            c.challenges_inv[i],
        )
    }
}

/// The second part `U` of the commitment, folded by the first `k` rounds.
pub open spec fn folded_u(u: Seq<u8>, comms: Seq<(Pair, Pair)>, c: Challenges, k: nat) -> Seq<u8>
    decreases k,
{
    if k == 0 {
        u
    } else {
        let i = (k - 1) as int;
        fqk_fold(
            folded_u(u, comms, c, (k - 1) as nat),
            comms[i].0.1,
            comms[i].1.1,
            c.challenges[i],
            c.challenges_inv[i],
        )
    }
}

/// The claimed product `Z`, folded by the first `k` rounds.
pub open spec fn folded_z(z: Seq<u8>, z_vec: Seq<Pair>, c: Challenges, k: nat) -> Seq<u8>
    decreases k,
{
    if k == 0 {
        z
    } else {
        let i = (k - 1) as int;
        fqk_fold(
            folded_z(z, z_vec, c, (k - 1) as nat),
            z_vec[i].0,
            z_vec[i].1,
            c.challenges[i],
            c.challenges_inv[i],
        )
    }
}

/// What the verifier's recursion arrives at: the folded commitment, the folded product, and
/// the challenges.
pub struct TippFolded {
    pub t: Seq<u8>,
    pub u: Seq<u8>,
    pub z: Seq<u8>,
    pub challenges: Challenges,
}

/// The verifier's recursion on the record `record`, from the commitment `com` and the
/// claimed product `z`. There is none where a challenge cannot be drawn.
pub open spec fn tipp_verification_fold(com: Pair, z: Seq<u8>, record: GipaTippView) -> Option<
    TippFolded,
> {
    let k = round_count(record.comms.len(), record.z_vec.len());
    match tipp_replay(record.comms, record.z_vec, k) {
        None => None,
        Some(c) => Some(
            TippFolded {
                t: folded_t(com.0, record.comms, c, k),
                u: folded_u(com.1, record.comms, c, k),
                z: folded_z(z, record.z_vec, c, k),
                challenges: c,
            },
        ),
    }
}

/// Draws the challenges of the record again.
fn replay_tipp_challenges(record: &GipaTIPP) -> (r: Result<(Vec<Fr>, Vec<Fr>), SynthesisError>)
    ensures
        match r {
            Ok((challenges, challenges_inv)) => tipp_replay(
                record@.comms,
                record@.z_vec,
                round_count(record@.comms.len(), record@.z_vec.len()),
            ) == Some(
                Challenges {
                    challenges: fr_values(challenges@),
                    challenges_inv: fr_values(challenges_inv@),
                },
            ) && are_inverses(challenges@, challenges_inv@),
            Err(e) => e == SynthesisError::ChallengeExhausted && tipp_replay(
                record@.comms,
                record@.z_vec,
                round_count(record@.comms.len(), record@.z_vec.len()),
            ).is_none(),
        },
{
    let rounds = if record.comms.len() <= record.z_vec.len() {
        record.comms.len()
    } else {
        record.z_vec.len()
    };
    let mut challenges: Vec<Fr> = Vec::new();
    let mut challenges_inv: Vec<Fr> = Vec::new();
    let mut i: usize = 0;
    proof {
        assert(fr_values(challenges@) =~= Seq::<nat>::empty());
        assert(fr_values(challenges_inv@) =~= Seq::<nat>::empty());
    }
    while i < rounds
        invariant
            i <= rounds,
            rounds == round_count(record@.comms.len(), record@.z_vec.len()),
            rounds <= record.comms@.len(),
            rounds <= record.z_vec@.len(),
            are_inverses(challenges@, challenges_inv@),
            tipp_replay(record@.comms, record@.z_vec, i as nat) == Some(
                Challenges {
                    challenges: fr_values(challenges@),
                    challenges_inv: fr_values(challenges_inv@),
                },
            ),
        decreases rounds - i,
    {
        let ((t_l, u_l), (t_r, u_r)) = record.comms[i];
        let (z_l, z_r) = record.z_vec[i];
        let previous = if challenges.len() == 0 {
            Fr::zero()
        } else {
            challenges[challenges.len() - 1]
        };
        let mut input: Vec<u8> = Vec::new();
        previous.write_to(&mut input);
        t_l.write_to(&mut input);
        u_l.write_to(&mut input);
        t_r.write_to(&mut input);
        u_r.write_to(&mut input);
        z_r.write_to(&mut input);
        z_l.write_to(&mut input);
        proof {
            assert(record@.comms[i as int] == (fqk_pair((t_l, u_l)), fqk_pair((t_r, u_r))));
            assert(record@.z_vec[i as int] == fqk_pair((z_l, z_r)));
            assert(input@ =~= tipp_challenge_input(
                latest(fr_values(challenges@)),
                record@.comms[i as int].0,
                record@.comms[i as int].1,
                record@.z_vec[i as int].0,
                record@.z_vec[i as int].1,
            ));
        }
        let (c_inv, c) = match derive_challenge_pair(&input) {
            Some(found) => found,
            None => {
                proof {
                    lemma_replay_fails_on(record@.comms, record@.z_vec, i as nat, rounds as nat);
                }
                return Err(SynthesisError::ChallengeExhausted);
            },
        };
        let ghost ch_before = fr_values(challenges@);
        let ghost ch_inv_before = fr_values(challenges_inv@);
        challenges.push(c);
        challenges_inv.push(c_inv);
        proof {
            assert(fr_values(challenges@) =~= ch_before.push(c@));
            assert(fr_values(challenges_inv@) =~= ch_inv_before.push(c_inv@));
        }
        i = i + 1;
    }
    Ok((challenges, challenges_inv))
}

/// Where the challenge of round `i` cannot be drawn, no later round has challenges either.
pub proof fn lemma_replay_fails_on(comms: Seq<(Pair, Pair)>, z_vec: Seq<Pair>, i: nat, k: nat)
    requires
        i < k,
        tipp_replay(comms, z_vec, i + 1).is_none(),
    ensures
        tipp_replay(comms, z_vec, k).is_none(),
    decreases k,
{
    if k > i + 1 {
        lemma_replay_fails_on(comms, z_vec, i, (k - 1) as nat);
    }
}

/// Folds the commitment `comm_ab` and the claimed product `z` over the rounds of the
/// record, with the challenges drawn again from it. It returns the folded commitment, the
/// folded product, the challenges and the inverse challenges, and fails where no challenge
/// can be drawn.
pub fn gipa_verify_tipp(comm_ab: &(Fqk, Fqk), z: &Fqk, proof: &GipaTIPP) -> (r: Result<
    ((Fqk, Fqk), Fqk, Vec<Fr>, Vec<Fr>),
    SynthesisError,
>)
    ensures
        match r {
            Ok((final_ab, final_z, challenges, challenges_inv)) => tipp_verification_fold(
                fqk_pair(*comm_ab),
                z@,
                proof@,
            ) == Some(
                TippFolded {
                    t: final_ab.0@,
                    u: final_ab.1@,
                    z: final_z@,
                    challenges: Challenges {
                        challenges: fr_values(challenges@),
                        challenges_inv: fr_values(challenges_inv@),
                    },
                },
            ),
            Err(e) => e == SynthesisError::ChallengeExhausted && tipp_verification_fold(
                fqk_pair(*comm_ab),
                z@,
                proof@,
            ).is_none(),
        },
        r matches Ok(done) ==> are_inverses(done.2@, done.3@),
{
    // the challenges come first: each depends on the one before
    let (challenges, challenges_inv) = match replay_tipp_challenges(proof) {
        Ok(found) => found,
        Err(e) => {
            return Err(e);
        },
    };
    let ghost c = Challenges {
        challenges: fr_values(challenges@),
        challenges_inv: fr_values(challenges_inv@),
    };
    let rounds = challenges.len();
    proof {
        lemma_replay_len(
            proof@.comms,
            proof@.z_vec,
            round_count(proof@.comms.len(), proof@.z_vec.len()),
        );
        assert(fr_values(challenges@).len() == challenges@.len());
        assert(fr_values(challenges_inv@).len() == challenges_inv@.len());
    }
    let mut t = comm_ab.0;
    let mut u = comm_ab.1;
    let mut z = *z;
    let ghost z0 = z@;
    let mut i: usize = 0;
    while i < rounds
        invariant
            i <= rounds,
            rounds == round_count(proof@.comms.len(), proof@.z_vec.len()),
            rounds <= proof.comms@.len(),
            rounds <= proof.z_vec@.len(),
            rounds == challenges@.len(),
            rounds == challenges_inv@.len(),
            c == (Challenges {
                challenges: fr_values(challenges@),
                challenges_inv: fr_values(challenges_inv@),
            }),
            t@ == folded_t(comm_ab.0@, proof@.comms, c, i as nat),
            u@ == folded_u(comm_ab.1@, proof@.comms, c, i as nat),
            z@ == folded_z(z0, proof@.z_vec, c, i as nat),
        decreases rounds - i,
    {
        let ((t_l, u_l), (t_r, u_r)) = proof.comms[i];
        let (z_l, z_r) = proof.z_vec[i];
        let x = &challenges[i];
        let x_inv = &challenges_inv[i];
        proof {
            assert(proof@.comms[i as int] == (fqk_pair((t_l, u_l)), fqk_pair((t_r, u_r))));
            assert(proof@.z_vec[i as int] == fqk_pair((z_l, z_r)));
            assert(c.challenges[i as int] == x@);
            assert(c.challenges_inv[i as int] == x_inv@);
        }
        // T = T . t_l^x . t_r^(1/x), and so for U and Z
        t = t.mul(&t_l.pow(x)).mul(&t_r.pow(x_inv));
        u = u.mul(&u_l.pow(x)).mul(&u_r.pow(x_inv));
        z = z.mul(&z_l.pow(x)).mul(&z_r.pow(x_inv));
        i = i + 1;
    }
    Ok(((t, u), z, challenges, challenges_inv))
}

/// The rounds that have challenges have one challenge each.
pub proof fn lemma_replay_len(comms: Seq<(Pair, Pair)>, z_vec: Seq<Pair>, k: nat)
    ensures
        tipp_replay(comms, z_vec, k) matches Some(c) ==> c.challenges.len() == k
            && c.challenges_inv.len() == k,
    decreases k,
{
    if k > 0 {
        lemma_replay_len(comms, z_vec, (k - 1) as nat);
    }
}

/// What the challenge point of the key openings is drawn from: the last challenge of the
/// recursion and the folded keys.
pub open spec fn tipp_opening_transcript(last: nat, v: Pair, w: Pair) -> Seq<u8> {
    crate::field::fr_encoding(last) + v.0 + v.1 + w.0 + w.1
}

/// The equation that the prover's final values are to meet: the product of the pairings
/// `e(a, b)`, `e(a, v.0)`, `e(w.0, b)`, `e(a, v.1)` and `e(w.1, b)` is to be the product of the
/// folded `Z`, `T` and `U`.
pub open spec fn tipp_final_check(record: GipaTippView, f: TippFolded) -> PairingTupleView {
    PairingTupleView {
        miller: miller_loop(
            seq![
                record.final_a,
                record.final_a,
                record.final_wkey.0,
                record.final_a,
                record.final_wkey.1,
            ],
            seq![
                record.final_b,
                record.final_vkey.0,
                record.final_b,
                record.final_vkey.1,
                record.final_b,
            ],
        ),
        constant: fqk_product(fqk_product(fqk_product(fqk_one(), f.z), f.t), f.u),
        valid: true,
    }
}

/// The check of a proof of a pairing product: the openings of the two folded keys and the
/// equation of the final values, merged into one. `r_shift` is the scalar by whose powers
/// the first vector, and by the inverses of whose powers the key `v`, were scaled.
pub open spec fn tipp_check(
    srs: VerifierSrsView,
    com: Pair,
    z: Seq<u8>,
    proof: TippProofView,
    r_shift: nat,
) -> Result<PairingTupleView, SynthesisError> {
    match tipp_verification_fold(com, z, proof.gipa) {
        None => Err(SynthesisError::ChallengeExhausted),
        Some(f) => match challenge(
            tipp_opening_transcript(
                latest(f.challenges.challenges),
                proof.gipa.final_vkey,
                proof.gipa.final_wkey,
            ),
        ) {
            None => Err(SynthesisError::ChallengeExhausted),
            Some(point) => Ok(
                merged(
                    merged(
                        kzg_check_g2(
                            srs,
                            proof.gipa.final_vkey,
                            proof.vkey_opening,
                            evaluation_product(
                                f.challenges.challenges_inv.reverse(),
                                point,
                                fr_inverse(r_shift),
                            ),
                            point,
                        ),
                        kzg_check_g1(
                            srs,
                            proof.gipa.final_wkey,
                            proof.wkey_opening,
                            evaluation_product(f.challenges.challenges.reverse(), point, 1),
                            point,
                        ),
                    ),
                    tipp_final_check(proof.gipa, f),
                ),
            ),
        },
    }
}

/// The check of the proof `proof` that `z` is the pairing product of the vectors committed to
/// in `comm_ab`, as one pairing tuple. It fails where no challenge can be drawn.
pub fn verify_tipp(
    v_srs: &VerifierSRS,
    comm_ab: &(Fqk, Fqk),
    z: &Fqk,
    proof: &TIPPProof,
    r_shift: &Fr,
) -> (r: Result<PairingTuple, SynthesisError>)
    requires
        r_shift@ != 0,
    ensures
        match r {
            Ok(tuple) => tipp_check(v_srs@, fqk_pair(*comm_ab), z@, proof@, r_shift@) == Ok::<
                PairingTupleView,
                SynthesisError,
            >(tuple@),
            Err(e) => tipp_check(v_srs@, fqk_pair(*comm_ab), z@, proof@, r_shift@) == Err::<
                PairingTupleView,
                SynthesisError,
            >(e),
        },
{
    let (final_ab, final_z, challenges, challenges_inv) = match gipa_verify_tipp(
        comm_ab,
        z,
        &proof.gipa,
    ) {
        Ok(done) => done,
        Err(e) => {
            return Err(e);
        },
    };
    let ghost f = tipp_verification_fold(fqk_pair(*comm_ab), z@, proof.gipa@).unwrap();
    let last = if challenges.len() == 0 {
        Fr::zero()
    } else {
        challenges[challenges.len() - 1]
    };
    // the polynomials of the folded keys take the challenges last first
    let challenges = fr_reversed(&challenges);
    let challenges_inv = fr_reversed(&challenges_inv);
    let fvkey = proof.gipa.final_vkey;
    let fwkey = proof.gipa.final_wkey;
    let mut input: Vec<u8> = Vec::new();
    last.write_to(&mut input);
    fvkey.0.write_to(&mut input);
    fvkey.1.write_to(&mut input);
    fwkey.0.write_to(&mut input);
    fwkey.1.write_to(&mut input);
    proof {
        assert(input@ =~= tipp_opening_transcript(
            latest(f.challenges.challenges),
            proof@.gipa.final_vkey,
            proof@.gipa.final_wkey,
        ));
    }
    let c = match derive_challenge(&input) {
        Some(c) => c,
        None => {
            return Err(SynthesisError::ChallengeExhausted);
        },
    };
    let r_inverse = match r_shift.inverse() {
        Some(x) => x,
        None => vstd::pervasive::unreached(),
    };
    // the openings of the folded keys
    let mut vtuple = verify_kzg_opening_g2(
        v_srs,
        &fvkey,
        &proof.vkey_opening,
        &challenges_inv,
        &r_inverse,
        &c,
    );
    let wtuple = verify_kzg_opening_g1(
        v_srs,
        &fwkey,
        &proof.wkey_opening,
        &challenges,
        &Fr::one(),
        &c,
    );
    // the equation of the final values
    let mut left: Vec<G1> = Vec::new();
    let mut right: Vec<G2> = Vec::new();
    let (t, u) = final_ab;
    // Z = e(A, B)
    left.push(proof.gipa.final_a);
    right.push(proof.gipa.final_b);
    let mut out = Fqk::one().mul(&final_z);
    // T = e(A, v1) e(w1, B)
    left.push(proof.gipa.final_a);
    right.push(fvkey.0);
    left.push(fwkey.0);
    right.push(proof.gipa.final_b);
    out = out.mul(&t);
    // U = e(A, v2) e(w2, B)
    left.push(proof.gipa.final_a);
    right.push(fvkey.1);
    left.push(fwkey.1);
    right.push(proof.gipa.final_b);
    out = out.mul(&u);
    proof {
        assert(g1_views(left@) =~= seq![
            proof@.gipa.final_a,
            proof@.gipa.final_a,
            proof@.gipa.final_wkey.0,
            proof@.gipa.final_a,
            proof@.gipa.final_wkey.1,
        ]);
        assert(g2_views(right@) =~= seq![
            proof@.gipa.final_b,
            proof@.gipa.final_vkey.0,
            proof@.gipa.final_b,
            proof@.gipa.final_vkey.1,
            proof@.gipa.final_b,
        ]);
    }
    let check = PairingTuple::from_pair(pairing_miller_affine(&left, &right), out);
    vtuple.merge(&wtuple);
    vtuple.merge(&check);
    Ok(vtuple)
}

} // verus!
