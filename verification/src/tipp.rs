//! The argument for a pairing product.
//!
//! Given a vector `A` of G1 and a vector `B` of G2, committed to under the keys `v` and `w`,
//! the prover shows what the product of the pairings `e(A[i], B[i])` is. Round by round the
//! vectors and the keys are halved: the prover commits to the two cross terms of the halves,
//! draws a challenge from them, and folds the right halves into the left ones.
use crate::batch::{check_batch_size, is_power_of_two, lemma_half_power_of_two, valid_batch_size};
use crate::commit::{
    key_first, key_has_len, key_left, key_right, pair, pair_commitment, vkey_compressed,
    wkey_compressed, KeyView, VKey, WKey,
};
use crate::curve::{g1_views, g2_views, Fqk, G1, G2};
use crate::error::SynthesisError;
use crate::field::{fr_encoding, fr_inverse, fr_values, Fr};
use crate::inner_product::{pairing, pairing_product};
use crate::kzg::{
    kzg_opening_g1, kzg_opening_g2, prove_commitment_key_kzg_opening_g1,
    prove_commitment_key_kzg_opening_g2,
};
use crate::proofs::{
    comms_view, fqk_pair, fqk_pairs_view, GipaTIPP, GipaTippView, Pair, TIPPProof, TippProofView,
};
use crate::srs::SRS;
use crate::transcript::{are_inverses, challenge, derive_challenge, derive_challenge_pair};
use crate::vectors::{
    fr_reversed, g1_fold_vector, g1_folded, g1_range, g2_fold_vector, g2_folded, g2_range,
};
use vstd::prelude::*;

verus! {

/// Where a recursion stands: the vectors and keys as folded so far, and what the rounds so
/// far have put on record.
pub struct TippState {
    pub a: Seq<Seq<u8>>,
    pub b: Seq<Seq<u8>>,
    pub v: KeyView,
    pub w: KeyView,
    pub comms: Seq<(Pair, Pair)>,
    pub z_vec: Seq<Pair>,
    pub challenges: Seq<nat>,
    pub challenges_inv: Seq<nat>,
}

/// What a round's challenge is chained to: the challenge of the round before, and zero in the
/// first round.
pub open spec fn latest(challenges: Seq<nat>) -> nat {
    if challenges.len() == 0 {
        0
    } else {
        challenges.last()
    }
}

/// The state that a recursion starts in.
pub open spec fn tipp_start(a: Seq<Seq<u8>>, b: Seq<Seq<u8>>, v: KeyView, w: KeyView)
    -> TippState {
    TippState {
        a,
        b,
        v,
        w,
        comms: Seq::empty(),
        z_vec: Seq::empty(),
        challenges: Seq::empty(),
        challenges_inv: Seq::empty(),
    }
}

/// The left cross commitment of a round: the right half of `A` and the left half of `B`,
/// under the left half of `v` and the right half of `w`.
pub open spec fn tipp_left_commitment(s: TippState) -> Pair {
    let n = s.a.len() as int;
    let m = n / 2;
    pair_commitment(
        key_left(s.v, m),
        key_right(s.w, m),
        s.a.subrange(m, n),
        s.b.subrange(0, m),
    )
}

/// The right cross commitment of a round: the left half of `A` and the right half of `B`,
/// under the right half of `v` and the left half of `w`.
pub open spec fn tipp_right_commitment(s: TippState) -> Pair {
    let n = s.a.len() as int;
    let m = n / 2;
    pair_commitment(
        key_right(s.v, m),
        key_left(s.w, m),
        s.a.subrange(0, m),
        s.b.subrange(m, n),
    )
}

/// The left cross product of a round: the right half of `A` with the left half of `B`.
pub open spec fn tipp_left_product(s: TippState) -> Seq<u8> {
    let n = s.a.len() as int;
    pairing_product(s.a.subrange(n / 2, n), s.b.subrange(0, n / 2))
}

/// The right cross product of a round: the left half of `A` with the right half of `B`.
pub open spec fn tipp_right_product(s: TippState) -> Seq<u8> {
    let n = s.a.len() as int;
    pairing_product(s.a.subrange(0, n / 2), s.b.subrange(n / 2, n))
}

/// What a round's challenge is drawn from: the challenge before, the two cross commitments,
/// left first, and the two cross products, right first.
pub open spec fn tipp_challenge_input(
    previous: nat,
    c_l: Pair,
    c_r: Pair,
    z_l: Seq<u8>,
    z_r: Seq<u8>,
) -> Seq<u8> {
    fr_encoding(previous) + c_l.0 + c_l.1 + c_r.0 + c_r.1 + z_r + z_l
}

/// What the challenge of the round that a state is about to make is drawn from.
pub open spec fn tipp_round_transcript(s: TippState) -> Seq<u8> {
    tipp_challenge_input(
        latest(s.challenges),
        tipp_left_commitment(s),
        tipp_right_commitment(s),
        tipp_left_product(s),
        tipp_right_product(s),
    )
}

/// The state after a round in which `h` was drawn. The challenge `c` of the round is the
/// inverse of `h`, and `h` is the inverse challenge: `A` and `w` are folded with `c`, `B`
/// and `v` with `h`, which is the narrower of the two scalars.
pub open spec fn tipp_fold(s: TippState, h: nat) -> TippState {
    let n = s.a.len() as int;
    let m = n / 2;
    let c = fr_inverse(h);
    TippState {
        a: g1_folded(s.a.subrange(0, m), s.a.subrange(m, n), c),
        b: g2_folded(s.b.subrange(0, m), s.b.subrange(m, n), h),
        v: vkey_compressed(key_left(s.v, m), key_right(s.v, m), h),
        w: wkey_compressed(key_left(s.w, m), key_right(s.w, m), c),
        comms: s.comms.push((tipp_left_commitment(s), tipp_right_commitment(s))),
        z_vec: s.z_vec.push((tipp_left_product(s), tipp_right_product(s))),
        challenges: s.challenges.push(c),
        challenges_inv: s.challenges_inv.push(h),
    }
}

/// The state after one round, if a challenge can be drawn.
pub open spec fn tipp_round(s: TippState) -> Option<TippState> {
    match challenge(tipp_round_transcript(s)) {
        Some(h) => Some(tipp_fold(s, h)),
        None => None,
    }
}

/// The state that the recursion ends in: rounds are made until the vectors have one entry.
pub open spec fn tipp_run(s: TippState) -> Option<TippState>
    decreases s.a.len(),
{
    if s.a.len() <= 1 {
        Some(s)
    } else {
        match tipp_round(s) {
            Some(t) => tipp_run(t),
            None => None,
        }
    }
}

/// What a recursion that has ended puts on record.
pub open spec fn tipp_record(f: TippState) -> GipaTippView {
    GipaTippView {
        comms: f.comms,
        z_vec: f.z_vec,
        final_a: f.a[0],
        final_b: f.b[0],
        final_vkey: key_first(f.v),
        final_wkey: key_first(f.w),
    }
}

/// The state that the prover's variables stand for.
pub open spec fn tipp_state(
    a: Seq<G1>,
    b: Seq<G2>,
    v: VKey,
    w: WKey,
    comms: Seq<((Fqk, Fqk), (Fqk, Fqk))>,
    z_vec: Seq<(Fqk, Fqk)>,
    challenges: Seq<Fr>,
    challenges_inv: Seq<Fr>,
) -> TippState {
    TippState {
        a: g1_views(a),
        b: g2_views(b),
        v: v@,
        w: w@,
        comms: comms_view(comms),
        z_vec: fqk_pairs_view(z_vec),
        challenges: fr_values(challenges),
        challenges_inv: fr_values(challenges_inv),
    }
}

/// Runs the recursion on `a` and `b` under the keys `vkey` and `wkey`. It returns the record
/// of the rounds with the challenges and the inverse challenges, each in the order in which
/// they were drawn, and fails where no challenge can be drawn.
pub fn gipa_tipp(a: &Vec<G1>, b: &Vec<G2>, vkey: &VKey, wkey: &WKey) -> (r: Result<
    (GipaTIPP, Vec<Fr>, Vec<Fr>),
    SynthesisError,
>)
    requires
        is_power_of_two(a@.len()),
        a@.len() == b@.len(),
        key_has_len(vkey@, a@.len()),
        key_has_len(wkey@, a@.len()),
    ensures
        match r {
            Ok((record, challenges, challenges_inv)) => {
                &&& tipp_run(tipp_start(g1_views(a@), g2_views(b@), vkey@, wkey@)) matches Some(f)
                &&& record@ == tipp_record(f)
                &&& fr_values(challenges@) == f.challenges
                &&& fr_values(challenges_inv@) == f.challenges_inv
                &&& are_inverses(challenges@, challenges_inv@)
            },
            Err(e) => e == SynthesisError::ChallengeExhausted && tipp_run(
                tipp_start(g1_views(a@), g2_views(b@), vkey@, wkey@),
            ).is_none(),
        },
{
    let ghost start = tipp_start(g1_views(a@), g2_views(b@), vkey@, wkey@);
    let mut m_a = g1_range(a, 0, a.len());
    let mut m_b = g2_range(b, 0, b.len());
    let mut vk = vkey.duplicate();
    let mut wk = wkey.duplicate();
    let mut comms: Vec<((Fqk, Fqk), (Fqk, Fqk))> = Vec::new();
    let mut z_vec: Vec<(Fqk, Fqk)> = Vec::new();
    let mut challenges: Vec<Fr> = Vec::new();
    let mut challenges_inv: Vec<Fr> = Vec::new();
    proof {
        let now = tipp_state(m_a@, m_b@, vk, wk, comms@, z_vec@, challenges@, challenges_inv@);
        assert(now.a =~= start.a);
        assert(now.b =~= start.b);
        assert(now.v.a =~= start.v.a);
        assert(now.v.b =~= start.v.b);
        assert(now.w.a =~= start.w.a);
        assert(now.w.b =~= start.w.b);
        assert(now.comms =~= start.comms);
        assert(now.z_vec =~= start.z_vec);
        assert(now.challenges =~= start.challenges);
        assert(now.challenges_inv =~= start.challenges_inv);
        assert(now == start);
    }
    while m_a.len() > 1
        invariant
            start == tipp_start(g1_views(a@), g2_views(b@), vkey@, wkey@),
            is_power_of_two(m_a@.len()),
            m_a@.len() == m_b@.len(),
            key_has_len(vk@, m_a@.len()),
            key_has_len(wk@, m_a@.len()),
            are_inverses(challenges@, challenges_inv@),
            tipp_run(
                tipp_state(m_a@, m_b@, vk, wk, comms@, z_vec@, challenges@, challenges_inv@),
            ) == tipp_run(start),
        decreases m_a@.len(),
    {
        let ghost now = tipp_state(
            m_a@,
            m_b@,
            vk,
            wk,
            comms@,
            z_vec@,
            challenges@,
            challenges_inv@,
        );
        let n = m_a.len();
        let split = n / 2;
        proof {
            lemma_half_power_of_two(n as nat);
        }
        let a_left = g1_range(&m_a, 0, split);
        let a_right = g1_range(&m_a, split, n);
        let b_left = g2_range(&m_b, 0, split);
        let b_right = g2_range(&m_b, split, n);
        let (vk_left, vk_right) = vk.split(split);
        let (wk_left, wk_right) = wk.split(split);
        let c_l = match pair(&vk_left, &wk_right, &a_right, &b_left) {
            Ok(c) => c,
            Err(_) => vstd::pervasive::unreached(),
        };
        let c_r = match pair(&vk_right, &wk_left, &a_left, &b_right) {
            Ok(c) => c,
            Err(_) => vstd::pervasive::unreached(),
        };
        let z_l = pairing(&a_right, &b_left);
        let z_r = pairing(&a_left, &b_right);
        proof {
            assert(fqk_pair(c_l) == tipp_left_commitment(now));
            assert(fqk_pair(c_r) == tipp_right_commitment(now));
            assert(z_l@ == tipp_left_product(now));
            assert(z_r@ == tipp_right_product(now));
        }
        // the challenge of the round, chained to the one before
        let previous = if challenges.len() == 0 {
            Fr::zero()
        } else {
            challenges[challenges.len() - 1]
        };
        let mut input: Vec<u8> = Vec::new();
        previous.write_to(&mut input);
        c_l.0.write_to(&mut input);
        c_l.1.write_to(&mut input);
        c_r.0.write_to(&mut input);
        c_r.1.write_to(&mut input);
        z_r.write_to(&mut input);
        z_l.write_to(&mut input);
        proof {
            assert(previous@ == latest(now.challenges));
            assert(input@ =~= tipp_round_transcript(now));
        }
        let (c_inv, c) = match derive_challenge_pair(&input) {
            Some(found) => found,
            None => {
                proof {
                    assert(tipp_round(now).is_none());
                    assert(tipp_run(now).is_none());
                }
                return Err(SynthesisError::ChallengeExhausted);
            },
        };
        // fold the right halves into the left ones
        let next_a = g1_fold_vector(&a_left, &a_right, &c);
        let next_b = g2_fold_vector(&b_left, &b_right, &c_inv);
        let next_vk = match VKey::compress(&vk_left, &vk_right, &c_inv) {
            Ok(k) => k,
            Err(_) => vstd::pervasive::unreached(),
        };
        let next_wk = match WKey::compress(&wk_left, &wk_right, &c) {
            Ok(k) => k,
            Err(_) => vstd::pervasive::unreached(),
        };
        let ghost comms_before = comms_view(comms@);
        let ghost z_before = fqk_pairs_view(z_vec@);
        let ghost ch_before = fr_values(challenges@);
        let ghost ch_inv_before = fr_values(challenges_inv@);
        comms.push((c_l, c_r));
        z_vec.push((z_l, z_r));
        challenges.push(c);
        challenges_inv.push(c_inv);
        m_a = next_a;
        m_b = next_b;
        vk = next_vk;
        wk = next_wk;
        proof {
            let next = tipp_state(
                m_a@,
                m_b@,
                vk,
                wk,
                comms@,
                z_vec@,
                challenges@,
                challenges_inv@,
            );
            let want = tipp_fold(now, c_inv@);
            assert(g1_views(m_a@).len() == split);
            assert(next.a =~= want.a);
            assert(next.b =~= want.b);
            assert(next.v.a =~= want.v.a);
            assert(next.v.b =~= want.v.b);
            assert(next.w.a =~= want.w.a);
            assert(next.w.b =~= want.w.b);
            assert(comms_view(comms@) =~= comms_before.push((fqk_pair(c_l), fqk_pair(c_r))));
            assert(fqk_pairs_view(z_vec@) =~= z_before.push(fqk_pair((z_l, z_r))));
            assert(fr_values(challenges@) =~= ch_before.push(c@));
            assert(fr_values(challenges_inv@) =~= ch_inv_before.push(c_inv@));
            assert(next.comms =~= want.comms);
            assert(next.z_vec =~= want.z_vec);
            assert(next.challenges =~= want.challenges);
            assert(next.challenges_inv =~= want.challenges_inv);
            assert(next == want);
            assert(tipp_round(now) == Some(want));
            assert(tipp_run(now) == tipp_run(want));
        }
    }
    let record = GipaTIPP {
        comms,
        z_vec,
        final_a: m_a[0],
        final_b: m_b[0],
        final_vkey: vk.first(),
        final_wkey: wk.first(),
    };
    Ok((record, challenges, challenges_inv))
}

/// What the challenge point of the key openings is drawn from: the last challenge of the
/// recursion and the folded keys.
pub open spec fn tipp_kzg_transcript(f: TippState) -> Seq<u8> {
    fr_encoding(latest(f.challenges)) + key_first(f.v).0 + key_first(f.v).1 + key_first(f.w).0
        + key_first(f.w).1
}

/// The proof of the pairing product of `a` and `b` under the keys `v` and `w`, where `v` has
/// been scaled by the inverses of the powers of `r_shift`. The recursion is run, a challenge
/// point is drawn, and the two folded keys are opened there: `v` for the inverse challenges,
/// last first, with the shift `1 / r_shift`, and `w` for the challenges, last first, with
/// the shift one.
pub open spec fn tipp_proof(
    srs: SRS,
    a: Seq<Seq<u8>>,
    b: Seq<Seq<u8>>,
    v: KeyView,
    w: KeyView,
    r_shift: nat,
) -> Result<TippProofView, SynthesisError> {
    if !valid_batch_size(a.len()) || a.len() != b.len() {
        Err(SynthesisError::MalformedProofs)
    } else if !key_has_len(v, a.len()) || !key_has_len(w, a.len()) {
        Err(SynthesisError::MalformedSrs)
    } else {
        match tipp_run(tipp_start(a, b, v, w)) {
            None => Err(SynthesisError::ChallengeExhausted),
            Some(f) => match challenge(tipp_kzg_transcript(f)) {
                None => Err(SynthesisError::ChallengeExhausted),
                Some(z) => match kzg_opening_g2(
                    g2_views(srs.h_alpha_powers@),
                    g2_views(srs.h_beta_powers@),
                    srs.n as nat,
                    f.challenges_inv.reverse(),
                    fr_inverse(r_shift),
                    z,
                ) {
                    Err(e) => Err(e),
                    Ok(v_opening) => match kzg_opening_g1(
                        g1_views(srs.g_alpha_powers@),
                        g1_views(srs.g_beta_powers@),
                        srs.n as nat,
                        f.challenges.reverse(),
                        1,
                        z,
                    ) {
                        Err(e) => Err(e),
                        Ok(w_opening) => Ok(
                            TippProofView {
                                gipa: tipp_record(f),
                                vkey_opening: v_opening,
                                wkey_opening: w_opening,
                            },
                        ),
                    },
                },
            },
        }
    }
}

/// Proves the pairing product of `a` and `b` under the keys `vkey` and `wkey`. In an
/// aggregation `a` holds the proofs' first points, each raised to its power of `r_shift`,
/// and `vkey` is scaled by the inverses of those powers. It fails with `MalformedProofs`
/// unless `a` and `b` have the same valid batch size, with `MalformedSrs` where a key or the
/// reference string has not that size, and with `ChallengeExhausted` where no challenge can
/// be drawn.
pub fn prove_tipp(
    srs: &SRS,
    a: &Vec<G1>,
    b: &Vec<G2>,
    vkey: &VKey,
    wkey: &WKey,
    r_shift: &Fr,
) -> (r: Result<TIPPProof, SynthesisError>)
    requires
        r_shift@ != 0,
    ensures
        match r {
            Ok(p) => tipp_proof(*srs, g1_views(a@), g2_views(b@), vkey@, wkey@, r_shift@) == Ok::<
                TippProofView,
                SynthesisError,
            >(p@),
            Err(e) => tipp_proof(*srs, g1_views(a@), g2_views(b@), vkey@, wkey@, r_shift@)
                == Err::<TippProofView, SynthesisError>(e),
        },
{
    if !check_batch_size(a.len()) || a.len() != b.len() {
        return Err(SynthesisError::MalformedProofs);
    }
    if !vkey.has_correct_len(a.len()) || !wkey.has_correct_len(a.len()) {
        return Err(SynthesisError::MalformedSrs);
    }
    let (record, challenges, challenges_inv) = match gipa_tipp(a, b, vkey, wkey) {
        Ok(done) => done,
        Err(e) => {
            return Err(e);
        },
    };
    let ghost f = tipp_run(tipp_start(g1_views(a@), g2_views(b@), vkey@, wkey@)).unwrap();
    // the challenge point is chained to the last challenge of the recursion
    let last = if challenges.len() == 0 {
        Fr::zero()
    } else {
        challenges[challenges.len() - 1]
    };
    // the polynomials of the folded keys take the challenges last first
    let challenges = fr_reversed(&challenges);
    let challenges_inv = fr_reversed(&challenges_inv);
    let r_inverse = match r_shift.inverse() {
        Some(x) => x,
        None => vstd::pervasive::unreached(),
    };
    let mut input: Vec<u8> = Vec::new();
    last.write_to(&mut input);
    record.final_vkey.0.write_to(&mut input);
    record.final_vkey.1.write_to(&mut input);
    record.final_wkey.0.write_to(&mut input);
    record.final_wkey.1.write_to(&mut input);
    proof {
        assert(input@ =~= tipp_kzg_transcript(f));
    }
    let z = match derive_challenge(&input) {
        Some(z) => z,
        None => {
            return Err(SynthesisError::ChallengeExhausted);
        },
    };
    let vkey_opening = match prove_commitment_key_kzg_opening_g2(
        &srs.h_alpha_powers,
        &srs.h_beta_powers,
        srs.n,
        &challenges_inv,
        &r_inverse,
        &z,
    ) {
        Ok(o) => o,
        Err(e) => {
            return Err(e);
        },
    };
    let wkey_opening = match prove_commitment_key_kzg_opening_g1(
        &srs.g_alpha_powers,
        &srs.g_beta_powers,
        srs.n,
        &challenges,
        &Fr::one(),
        &z,
    ) {
        Ok(o) => o,
        Err(e) => {
            return Err(e);
        },
    };
    Ok(TIPPProof { gipa: record, vkey_opening, wkey_opening })
}

} // verus!
