//! Prover and verifier draw the same challenges.
//!
//! The prover draws each challenge from the cross terms of the round that it is in. The
//! verifier has only the record, and draws each challenge from the record's entry for the
//! round. Both chain the challenge to the one before, both take the inverse of what the hash
//! gives as the challenge, and what it gives as the inverse challenge. So for the record of a
//! recursion that the prover ran, the verifier arrives at the prover's challenges.
use crate::commit::KeyView;
use crate::mipp::{
    mipp_left_commitment, mipp_left_term, mipp_right_commitment, mipp_right_term, mipp_round,
    mipp_run, mipp_start, MippState,
};
use crate::proofs::Pair;
use crate::tipp::{
    tipp_left_commitment, tipp_left_product, tipp_right_commitment, tipp_right_product,
    tipp_round, tipp_run, tipp_start, TippState,
};
use crate::verify_mipp::mipp_replay;
use crate::verify_tipp::{round_count, tipp_replay, Challenges};
use vstd::prelude::*;

verus! {

/// Whether the verifier, given the record of a state, arrives at the challenges of the state.
pub open spec fn tipp_replays(s: TippState) -> bool {
    &&& s.z_vec.len() == s.comms.len()
    &&& s.challenges.len() == s.comms.len()
    &&& s.challenges_inv.len() == s.comms.len()
    &&& tipp_replay(s.comms, s.z_vec, s.comms.len()) == Some(
        Challenges { challenges: s.challenges, challenges_inv: s.challenges_inv },
    )
}

/// The challenges of the first `k` rounds depend on the first `k` entries of the record only.
pub proof fn lemma_tipp_replay_prefix(
    comms: Seq<(Pair, Pair)>,
    z_vec: Seq<Pair>,
    longer_comms: Seq<(Pair, Pair)>,
    longer_z_vec: Seq<Pair>,
    k: nat,
)
    requires
        k <= comms.len(),
        k <= z_vec.len(),
        forall|i: int| 0 <= i < k ==> longer_comms[i] == comms[i],
        forall|i: int| 0 <= i < k ==> longer_z_vec[i] == z_vec[i],
    ensures
        tipp_replay(longer_comms, longer_z_vec, k) == tipp_replay(comms, z_vec, k),
    decreases k,
{
    if k > 0 {
        lemma_tipp_replay_prefix(comms, z_vec, longer_comms, longer_z_vec, (k - 1) as nat);
    }
}

/// A round keeps the verifier in step with the prover.
pub proof fn lemma_tipp_round_replays(s: TippState, t: TippState)
    requires
        tipp_replays(s),
        tipp_round(s) == Some(t),
    ensures
        tipp_replays(t),
{
    let k = s.comms.len();
    lemma_tipp_replay_prefix(s.comms, s.z_vec, t.comms, t.z_vec, k);
    assert(t.comms[k as int] == (tipp_left_commitment(s), tipp_right_commitment(s)));
    assert(t.z_vec[k as int] == (tipp_left_product(s), tipp_right_product(s)));
    assert(t.comms.len() == k + 1);
}

/// The verifier stays in step with the prover to the end of the recursion.
pub proof fn lemma_tipp_run_replays(s: TippState, f: TippState)
    requires
        tipp_replays(s),
        tipp_run(s) == Some(f),
    ensures
        tipp_replays(f),
    decreases s.a.len(),
{
    if s.a.len() > 1 {
        let t = tipp_round(s).unwrap();
        lemma_tipp_round_replays(s, t);
        lemma_tipp_run_replays(t, f);
    }
}

/// For the record of a pairing-product recursion that the prover ran to its end, the
/// verifier draws the challenges and inverse challenges that the prover drew, in the same
/// order.
pub proof fn lemma_tipp_verifier_draws_prover_challenges(
    a: Seq<Seq<u8>>,
    b: Seq<Seq<u8>>,
    v: KeyView,
    w: KeyView,
    f: TippState,
)
    requires
        tipp_run(tipp_start(a, b, v, w)) == Some(f),
    ensures
        tipp_replay(f.comms, f.z_vec, round_count(f.comms.len(), f.z_vec.len())) == Some(
            Challenges { challenges: f.challenges, challenges_inv: f.challenges_inv },
        ),
{
    lemma_tipp_run_replays(tipp_start(a, b, v, w), f);
}

/// Whether the verifier, given the record of a state, arrives at the challenges of the state.
pub open spec fn mipp_replays(s: MippState) -> bool {
    &&& s.z_vec.len() == s.comms.len()
    &&& s.challenges.len() == s.comms.len()
    &&& s.challenges_inv.len() == s.comms.len()
    &&& mipp_replay(s.comms, s.z_vec, s.comms.len()) == Some(
        Challenges { challenges: s.challenges, challenges_inv: s.challenges_inv },
    )
}

/// The challenges of the first `k` rounds depend on the first `k` entries of the record only.
pub proof fn lemma_mipp_replay_prefix(
    comms: Seq<(Pair, Pair)>,
    z_vec: Seq<Pair>,
    longer_comms: Seq<(Pair, Pair)>,
    longer_z_vec: Seq<Pair>,
    k: nat,
)
    requires
        k <= comms.len(),
        k <= z_vec.len(),
        forall|i: int| 0 <= i < k ==> longer_comms[i] == comms[i],
        forall|i: int| 0 <= i < k ==> longer_z_vec[i] == z_vec[i],
    ensures
        mipp_replay(longer_comms, longer_z_vec, k) == mipp_replay(comms, z_vec, k),
    decreases k,
{
    if k > 0 {
        lemma_mipp_replay_prefix(comms, z_vec, longer_comms, longer_z_vec, (k - 1) as nat);
    }
}

/// A round keeps the verifier in step with the prover.
pub proof fn lemma_mipp_round_replays(s: MippState, t: MippState)
    requires
        mipp_replays(s),
        mipp_round(s) == Some(t),
    ensures
        mipp_replays(t),
{
    let k = s.comms.len();
    lemma_mipp_replay_prefix(s.comms, s.z_vec, t.comms, t.z_vec, k);
    assert(t.comms[k as int] == (mipp_left_commitment(s), mipp_right_commitment(s)));
    assert(t.z_vec[k as int] == (mipp_left_term(s), mipp_right_term(s)));
    assert(t.comms.len() == k + 1);
}

/// The verifier stays in step with the prover to the end of the recursion.
pub proof fn lemma_mipp_run_replays(s: MippState, f: MippState)
    requires
        mipp_replays(s),
        mipp_run(s) == Some(f),
    ensures
        mipp_replays(f),
    decreases s.c.len(),
{
    if s.c.len() > 1 {
        let t = mipp_round(s).unwrap();
        lemma_mipp_round_replays(s, t);
        lemma_mipp_run_replays(t, f);
    }
}

/// For the record of a multi-exponentiation recursion that the prover ran to its end, the
/// verifier draws the challenges and inverse challenges that the prover drew, in the same
/// order.
pub proof fn lemma_mipp_verifier_draws_prover_challenges(
    c: Seq<Seq<u8>>,
    r: Seq<nat>,
    v: KeyView,
    f: MippState,
)
    requires
        mipp_run(mipp_start(c, r, v)) == Some(f),
    ensures
        mipp_replay(f.comms, f.z_vec, round_count(f.comms.len(), f.z_vec.len())) == Some(
            Challenges { challenges: f.challenges, challenges_inv: f.challenges_inv },
        ),
{
    lemma_mipp_run_replays(mipp_start(c, r, v), f);
}

} // verus!
