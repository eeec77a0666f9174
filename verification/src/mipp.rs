//! The argument for a multi-exponentiation.
//!
//! Given a vector `C` of G1, committed to under the key `v`, and a vector `r` of scalars, the
//! prover shows what the sum of the `r[i] C[i]` is. The recursion is that of the pairing
//! product, with scalars in the place of the second vector of points and without a key `w`.
use crate::batch::{check_batch_size, is_power_of_two, lemma_half_power_of_two, valid_batch_size};
use crate::commit::{
    key_first, key_has_len, key_left, key_right, single_commitment, single_g1, vkey_compressed,
    KeyView, VKey,
};
use crate::curve::{g1_views, g2_views, Fqk, G1};
use crate::error::SynthesisError;
use crate::field::{fr_encoding, fr_inverse, fr_values, Fr};
use crate::inner_product::{g1_multiexp, multiexponentiation};
use crate::kzg::{kzg_opening_g2, prove_commitment_key_kzg_opening_g2};
use crate::proofs::{
    comms_view, fqk_pair, g1_pair, g1_pairs_view, GipaMIPP, GipaMippView, MIPPProof,
    MippProofView, Pair,
};
use crate::srs::SRS;
use crate::tipp::latest;
use crate::transcript::{are_inverses, challenge, derive_challenge, derive_challenge_pair};
use crate::vectors::{
    fr_fold_vector, fr_folded, fr_range, fr_reversed, g1_fold_vector, g1_folded, g1_range,
};
use vstd::prelude::*;

verus! {

/// Where a recursion stands: the vectors and the key as folded so far, and what the rounds so
/// far have put on record.
pub struct MippState {
    pub c: Seq<Seq<u8>>,
    pub r: Seq<nat>,
    pub v: KeyView,
    pub comms: Seq<(Pair, Pair)>,
    pub z_vec: Seq<Pair>,
    pub challenges: Seq<nat>,
    pub challenges_inv: Seq<nat>,
}

/// The state that a recursion starts in.
pub open spec fn mipp_start(c: Seq<Seq<u8>>, r: Seq<nat>, v: KeyView) -> MippState {
    MippState {
        c,
        r,
        v,
        comms: Seq::empty(),
        z_vec: Seq::empty(),
        challenges: Seq::empty(),
        challenges_inv: Seq::empty(),
    }
}

/// The left cross commitment of a round: the right half of `C` under the left half of `v`.
pub open spec fn mipp_left_commitment(s: MippState) -> Pair {
    let n = s.c.len() as int;
    single_commitment(key_left(s.v, n / 2), s.c.subrange(n / 2, n))
}

/// The right cross commitment of a round: the left half of `C` under the right half of `v`.
pub open spec fn mipp_right_commitment(s: MippState) -> Pair {
    let n = s.c.len() as int;
    single_commitment(key_right(s.v, n / 2), s.c.subrange(0, n / 2))
}

/// The left cross term of a round: the right half of `C` by the left half of `r`.
pub open spec fn mipp_left_term(s: MippState) -> Seq<u8> {
    let n = s.c.len() as int;
    g1_multiexp(s.c.subrange(n / 2, n), s.r.subrange(0, n / 2))
}

/// The right cross term of a round: the left half of `C` by the right half of `r`.
pub open spec fn mipp_right_term(s: MippState) -> Seq<u8> {
    let n = s.c.len() as int;
    g1_multiexp(s.c.subrange(0, n / 2), s.r.subrange(n / 2, n))
}

/// What a round's challenge is drawn from: the challenge before, the two cross commitments,
/// right first, and the two cross terms, right first.
pub open spec fn mipp_challenge_input(
    previous: nat,
    tu_l: Pair,
    tu_r: Pair,
    z_l: Seq<u8>,
    z_r: Seq<u8>,
) -> Seq<u8> {
    fr_encoding(previous) + tu_r.0 + tu_r.1 + tu_l.0 + tu_l.1 + z_r + z_l
}

/// What the challenge of the round that a state is about to make is drawn from.
pub open spec fn mipp_round_transcript(s: MippState) -> Seq<u8> {
    mipp_challenge_input(
        latest(s.challenges),
        mipp_left_commitment(s),
        mipp_right_commitment(s),
        mipp_left_term(s),
        mipp_right_term(s),
    )
}

/// The state after a round in which `h` was drawn. The challenge `x` of the round is the
/// inverse of `h`, and `h` is the inverse challenge: `C` is folded with `x`, `r` and `v`
/// with `h`.
pub open spec fn mipp_fold(s: MippState, h: nat) -> MippState {
    let n = s.c.len() as int;
    let m = n / 2;
    let x = fr_inverse(h);
    MippState {
        c: g1_folded(s.c.subrange(0, m), s.c.subrange(m, n), x),
        r: fr_folded(s.r.subrange(0, m), s.r.subrange(m, n), h),
        v: vkey_compressed(key_left(s.v, m), key_right(s.v, m), h),
        comms: s.comms.push((mipp_left_commitment(s), mipp_right_commitment(s))),
        z_vec: s.z_vec.push((mipp_left_term(s), mipp_right_term(s))),
        challenges: s.challenges.push(x),
        challenges_inv: s.challenges_inv.push(h),
    }
}

/// The state after one round, if a challenge can be drawn.
pub open spec fn mipp_round(s: MippState) -> Option<MippState> {
    match challenge(mipp_round_transcript(s)) {
        Some(h) => Some(mipp_fold(s, h)),
        None => None,
    }
}

/// The state that the recursion ends in: rounds are made until the vectors have one entry.
pub open spec fn mipp_run(s: MippState) -> Option<MippState>
    decreases s.c.len(),
{
    if s.c.len() <= 1 {
        Some(s)
    } else {
        match mipp_round(s) {
            Some(t) => mipp_run(t),
            None => None,
        }
    }
}

/// What a recursion that has ended puts on record.
pub open spec fn mipp_record(f: MippState) -> GipaMippView {
    GipaMippView {
        comms: f.comms,
        z_vec: f.z_vec,
        final_c: f.c[0],
        final_r: f.r[0],
        final_vkey: key_first(f.v),
    }
}

/// The state that the prover's variables stand for.
pub open spec fn mipp_state(
    c: Seq<G1>,
    r: Seq<Fr>,
    v: VKey,
    comms: Seq<((Fqk, Fqk), (Fqk, Fqk))>,
    z_vec: Seq<(G1, G1)>,
    challenges: Seq<Fr>,
    challenges_inv: Seq<Fr>,
) -> MippState {
    MippState {
        c: g1_views(c),
        r: fr_values(r),
        v: v@,
        comms: comms_view(comms),
        z_vec: g1_pairs_view(z_vec),
        challenges: fr_values(challenges),
        challenges_inv: fr_values(challenges_inv),
    }
}

/// Runs the recursion on `c` and `r` under the key `vkey`. It returns the record of the
/// rounds with the challenges and the inverse challenges, each in the order in which they
/// were drawn, and fails where no challenge can be drawn.
pub fn gipa_mipp(c: &Vec<G1>, r: &Vec<Fr>, vkey: &VKey) -> (res: Result<
    (GipaMIPP, Vec<Fr>, Vec<Fr>),
    SynthesisError,
>)
    requires
        is_power_of_two(c@.len()),
        c@.len() == r@.len(),
        key_has_len(vkey@, c@.len()),
    ensures
        match res {
            Ok((record, challenges, challenges_inv)) => {
                &&& mipp_run(mipp_start(g1_views(c@), fr_values(r@), vkey@)) matches Some(f)
                &&& record@ == mipp_record(f)
                &&& fr_values(challenges@) == f.challenges
                &&& fr_values(challenges_inv@) == f.challenges_inv
                &&& are_inverses(challenges@, challenges_inv@)
            },
            Err(e) => e == SynthesisError::ChallengeExhausted && mipp_run(
                mipp_start(g1_views(c@), fr_values(r@), vkey@),
            ).is_none(),
        },
{
    let ghost start = mipp_start(g1_views(c@), fr_values(r@), vkey@);
    let mut m_c = g1_range(c, 0, c.len());
    let mut m_r = fr_range(r, 0, r.len());
    let mut vk = vkey.duplicate();
    let mut comms: Vec<((Fqk, Fqk), (Fqk, Fqk))> = Vec::new();
    let mut z_vec: Vec<(G1, G1)> = Vec::new();
    let mut challenges: Vec<Fr> = Vec::new();
    let mut challenges_inv: Vec<Fr> = Vec::new();
    proof {
        let now = mipp_state(m_c@, m_r@, vk, comms@, z_vec@, challenges@, challenges_inv@);
        assert(now.c =~= start.c);
        assert(now.r =~= start.r);
        assert(now.v.a =~= start.v.a);
        assert(now.v.b =~= start.v.b);
        assert(now.comms =~= start.comms);
        assert(now.z_vec =~= start.z_vec);
        assert(now.challenges =~= start.challenges);
        assert(now.challenges_inv =~= start.challenges_inv);
        assert(now == start);
    }
    while m_c.len() > 1
        invariant
            start == mipp_start(g1_views(c@), fr_values(r@), vkey@),
            is_power_of_two(m_c@.len()),
            m_c@.len() == m_r@.len(),
            key_has_len(vk@, m_c@.len()),
            are_inverses(challenges@, challenges_inv@),
            mipp_run(mipp_state(m_c@, m_r@, vk, comms@, z_vec@, challenges@, challenges_inv@))
                == mipp_run(start),
        decreases m_c@.len(),
    {
        let ghost now = mipp_state(m_c@, m_r@, vk, comms@, z_vec@, challenges@, challenges_inv@);
        let n = m_c.len();
        let split = n / 2;
        proof {
            lemma_half_power_of_two(n as nat);
        }
        let c_left = g1_range(&m_c, 0, split);
        let c_right = g1_range(&m_c, split, n);
        let r_left = fr_range(&m_r, 0, split);
        let r_right = fr_range(&m_r, split, n);
        let (vk_left, vk_right) = vk.split(split);
        let z_r = multiexponentiation(&c_left, &r_right);
        let z_l = multiexponentiation(&c_right, &r_left);
        let tu_r = match single_g1(&vk_right, &c_left) {
            Ok(tu) => tu,
            Err(_) => vstd::pervasive::unreached(),
        };
        let tu_l = match single_g1(&vk_left, &c_right) {
            Ok(tu) => tu,
            Err(_) => vstd::pervasive::unreached(),
        };
        proof {
            assert(fqk_pair(tu_l) == mipp_left_commitment(now));
            assert(fqk_pair(tu_r) == mipp_right_commitment(now));
            assert(z_l@ == mipp_left_term(now));
            assert(z_r@ == mipp_right_term(now));
        }
        // the challenge of the round, chained to the one before
        let previous = if challenges.len() == 0 {
            Fr::zero()
        } else {
            challenges[challenges.len() - 1]
        };
        let mut input: Vec<u8> = Vec::new();
        previous.write_to(&mut input);
        tu_r.0.write_to(&mut input);
        tu_r.1.write_to(&mut input);
        tu_l.0.write_to(&mut input);
        tu_l.1.write_to(&mut input);
        z_r.write_to(&mut input);
        z_l.write_to(&mut input);
        proof {
            assert(previous@ == latest(now.challenges));
            assert(input@ =~= mipp_round_transcript(now));
        }
        let (x_inv, x) = match derive_challenge_pair(&input) {
            Some(found) => found,
            None => {
                proof {
                    assert(mipp_round(now).is_none());
                    assert(mipp_run(now).is_none());
                }
                return Err(SynthesisError::ChallengeExhausted);
            },
        };
        // fold the right halves into the left ones
        let next_c = g1_fold_vector(&c_left, &c_right, &x);
        let next_r = fr_fold_vector(&r_left, &r_right, &x_inv);
        let next_vk = match VKey::compress(&vk_left, &vk_right, &x_inv) {
            Ok(k) => k,
            Err(_) => vstd::pervasive::unreached(),
        };
        let ghost comms_before = comms_view(comms@);
        let ghost z_before = g1_pairs_view(z_vec@);
        let ghost ch_before = fr_values(challenges@);
        let ghost ch_inv_before = fr_values(challenges_inv@);
        comms.push((tu_l, tu_r));
        z_vec.push((z_l, z_r));
        challenges.push(x);
        challenges_inv.push(x_inv);
        m_c = next_c;
        m_r = next_r;
        vk = next_vk;
        proof {
            let next = mipp_state(m_c@, m_r@, vk, comms@, z_vec@, challenges@, challenges_inv@);
            let want = mipp_fold(now, x_inv@);
            assert(g1_views(m_c@).len() == split);
            assert(fr_values(m_r@).len() == split);
            assert(next.c =~= want.c);
            assert(next.r =~= want.r);
            assert(next.v.a =~= want.v.a);
            assert(next.v.b =~= want.v.b);
            assert(comms_view(comms@) =~= comms_before.push((fqk_pair(tu_l), fqk_pair(tu_r))));
            assert(g1_pairs_view(z_vec@) =~= z_before.push(g1_pair((z_l, z_r))));
            assert(fr_values(challenges@) =~= ch_before.push(x@));
            assert(fr_values(challenges_inv@) =~= ch_inv_before.push(x_inv@));
            assert(next.comms =~= want.comms);
            assert(next.z_vec =~= want.z_vec);
            assert(next.challenges =~= want.challenges);
            assert(next.challenges_inv =~= want.challenges_inv);
            assert(next == want);
            assert(mipp_round(now) == Some(want));
            assert(mipp_run(now) == mipp_run(want));
        }
    }
    let record = GipaMIPP {
        comms,
        z_vec,
        final_c: m_c[0],
        final_r: m_r[0],
        final_vkey: vk.first(),
    };
    Ok((record, challenges, challenges_inv))
}

/// What the challenge point of the key opening is drawn from: the last challenge of the
/// recursion and the folded key.
pub open spec fn mipp_kzg_transcript(f: MippState) -> Seq<u8> {
    fr_encoding(latest(f.challenges)) + key_first(f.v).0 + key_first(f.v).1
}

/// The proof of the multi-exponentiation of `c` by `r` under the key `v`. The recursion is
/// run, a challenge point is drawn, and the folded key is opened there, for the inverse
/// challenges, last first, with the shift one.
pub open spec fn mipp_proof(srs: SRS, c: Seq<Seq<u8>>, r: Seq<nat>, v: KeyView) -> Result<
    MippProofView,
    SynthesisError,
> {
    if !valid_batch_size(c.len()) || c.len() != r.len() {
        Err(SynthesisError::MalformedProofs)
    } else if !key_has_len(v, c.len()) {
        Err(SynthesisError::MalformedSrs)
    } else {
        match mipp_run(mipp_start(c, r, v)) {
            None => Err(SynthesisError::ChallengeExhausted),
            Some(f) => match challenge(mipp_kzg_transcript(f)) {
                None => Err(SynthesisError::ChallengeExhausted),
                Some(z) => match kzg_opening_g2(
                    g2_views(srs.h_alpha_powers@),
                    g2_views(srs.h_beta_powers@),
                    srs.n as nat,
                    f.challenges_inv.reverse(),
                    1,
                    z,
                ) {
                    Err(e) => Err(e),
                    Ok(v_opening) => Ok(
                        MippProofView { gipa: mipp_record(f), vkey_opening: v_opening },
                    ),
                },
            },
        }
    }
}

/// Proves the multi-exponentiation of `c` by `r` under the key `vkey`. It fails with
/// `MalformedProofs` unless `c` and `r` have the same valid batch size, with `MalformedSrs`
/// where the key or the reference string has not that size, and with `ChallengeExhausted`
/// where no challenge can be drawn.
pub fn prove_mipp(srs: &SRS, c: &Vec<G1>, r: &Vec<Fr>, vkey: &VKey) -> (res: Result<
    MIPPProof,
    SynthesisError,
>)
    ensures
        match res {
            Ok(p) => mipp_proof(*srs, g1_views(c@), fr_values(r@), vkey@) == Ok::<
                MippProofView,
                SynthesisError,
            >(p@),
            Err(e) => mipp_proof(*srs, g1_views(c@), fr_values(r@), vkey@) == Err::<
                MippProofView,
                SynthesisError,
            >(e),
        },
{
    if !check_batch_size(c.len()) || c.len() != r.len() {
        return Err(SynthesisError::MalformedProofs);
    }
    if !vkey.has_correct_len(c.len()) {
        return Err(SynthesisError::MalformedSrs);
    }
    let (record, challenges, challenges_inv) = match gipa_mipp(c, r, vkey) {
        Ok(done) => done,
        Err(e) => {
            return Err(e);
        },
    };
    let ghost f = mipp_run(mipp_start(g1_views(c@), fr_values(r@), vkey@)).unwrap();
    // the challenge point is chained to the last challenge of the recursion
    let last = if challenges.len() == 0 {
        Fr::zero()
    } else {
        challenges[challenges.len() - 1]
    };
    // the polynomial of the folded key takes the inverse challenges last first
    let challenges_inv = fr_reversed(&challenges_inv);
    let mut input: Vec<u8> = Vec::new();
    last.write_to(&mut input);
    record.final_vkey.0.write_to(&mut input);
    record.final_vkey.1.write_to(&mut input);
    proof {
        assert(input@ =~= mipp_kzg_transcript(f));
    }
    let z = match derive_challenge(&input) {
        Some(z) => z,
        None => {
            return Err(SynthesisError::ChallengeExhausted);
        },
    };
    let vkey_opening = match prove_commitment_key_kzg_opening_g2(
        &srs.h_alpha_powers,
        &srs.h_beta_powers,
        srs.n,
        &challenges_inv,
        &Fr::one(),
        &z,
    ) {
        Ok(o) => o,
        Err(e) => {
            return Err(e);
        },
    };
    Ok(MIPPProof { gipa: record, vkey_opening })
}

} // verus!
