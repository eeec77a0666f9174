//! The shape of a recursion.
//!
//! Each round halves the two vectors and the keys, which stay of one length, and puts one
//! entry on record. So a recursion on vectors of length `n`, a power of two, ends with
//! vectors of length one after as many rounds as `n` has factors of two, and the polynomial
//! of its challenges has `n` coefficients: as many as the reference string has powers.
use crate::batch::{is_power_of_two, lemma_half_power_of_two};
use crate::commit::{key_has_len, KeyView};
use crate::mipp::{mipp_round, mipp_run, mipp_start, MippState};
use crate::poly::coefficients;
use crate::poly_laws::lemma_coefficients_len;
use crate::tipp::{tipp_round, tipp_run, tipp_start, TippState};
use vstd::arithmetic::power2::{lemma_pow2_unfold, pow2};
use vstd::prelude::*;

verus! {

/// Whether a state has the shape of a recursion that started on vectors of length `n`: its
/// vectors and keys are of one length, a power of two, which doubled once for each round on
/// record gives `n`.
pub open spec fn tipp_shape(s: TippState, n: nat) -> bool {
    &&& is_power_of_two(s.a.len())
    &&& s.b.len() == s.a.len()
    &&& key_has_len(s.v, s.a.len())
    &&& key_has_len(s.w, s.a.len())
    &&& s.a.len() * pow2(s.comms.len()) == n
    &&& s.z_vec.len() == s.comms.len()
    &&& s.challenges.len() == s.comms.len()
    &&& s.challenges_inv.len() == s.comms.len()
}

/// Half of an even number, doubled once more often, gives the same.
proof fn lemma_halve_and_double(len: nat, k: nat)
    requires
        len % 2 == 0,
    ensures
        (len / 2) * pow2(k + 1) == len * pow2(k),
{
    lemma_pow2_unfold(k + 1);
    let p = pow2(k);
    let h = len / 2;
    assert(h * (2 * p) == (h + h) * p) by (nonlinear_arith);
}

/// A round halves the vectors and the keys and keeps the shape.
pub proof fn lemma_tipp_round_shape(s: TippState, t: TippState, n: nat)
    requires
        tipp_shape(s, n),
        s.a.len() > 1,
        tipp_round(s) == Some(t),
    ensures
        tipp_shape(t, n),
        t.a.len() == s.a.len() / 2,
{
    lemma_half_power_of_two(s.a.len());
    lemma_halve_and_double(s.a.len(), s.comms.len());
}

/// A recursion keeps its shape to the end, where the vectors have one entry.
pub proof fn lemma_tipp_run_shape(s: TippState, f: TippState, n: nat)
    requires
        tipp_shape(s, n),
        tipp_run(s) == Some(f),
    ensures
        tipp_shape(f, n),
        f.a.len() == 1,
    decreases s.a.len(),
{
    if s.a.len() > 1 {
        let t = tipp_round(s).unwrap();
        lemma_tipp_round_shape(s, t, n);
        lemma_tipp_run_shape(t, f, n);
    }
}

/// A pairing-product recursion on vectors of length `n`, a power of two, ends with vectors
/// and keys of one entry, after as many rounds as `n` has factors of two. The polynomials of
/// its challenges, taken last first, have `n` coefficients.
pub proof fn lemma_tipp_rounds(
    a: Seq<Seq<u8>>,
    b: Seq<Seq<u8>>,
    v: KeyView,
    w: KeyView,
    f: TippState,
    r: nat,
)
    requires
        is_power_of_two(a.len()),
        b.len() == a.len(),
        key_has_len(v, a.len()),
        key_has_len(w, a.len()),
        tipp_run(tipp_start(a, b, v, w)) == Some(f),
    ensures
        f.a.len() == 1,
        f.b.len() == 1,
        key_has_len(f.v, 1),
        key_has_len(f.w, 1),
        pow2(f.comms.len()) == a.len(),
        f.z_vec.len() == f.comms.len(),
        f.challenges.len() == f.comms.len(),
        f.challenges_inv.len() == f.comms.len(),
        coefficients(f.challenges.reverse(), r).len() == a.len(),
        coefficients(f.challenges_inv.reverse(), r).len() == a.len(),
{
    let start = tipp_start(a, b, v, w);
    vstd::arithmetic::power2::lemma2_to64();
    assert(a.len() * 1 == a.len()) by (nonlinear_arith);
    lemma_tipp_run_shape(start, f, a.len());
    assert(1 * pow2(f.comms.len()) == pow2(f.comms.len())) by (nonlinear_arith);
    lemma_coefficients_len(f.challenges.reverse(), r);
    lemma_coefficients_len(f.challenges_inv.reverse(), r);
}

/// Whether a state has the shape of a recursion that started on vectors of length `n`.
pub open spec fn mipp_shape(s: MippState, n: nat) -> bool {
    &&& is_power_of_two(s.c.len())
    &&& s.r.len() == s.c.len()
    &&& key_has_len(s.v, s.c.len())
    &&& s.c.len() * pow2(s.comms.len()) == n
    &&& s.z_vec.len() == s.comms.len()
    &&& s.challenges.len() == s.comms.len()
    &&& s.challenges_inv.len() == s.comms.len()
}

/// A round halves the vectors and the key and keeps the shape.
pub proof fn lemma_mipp_round_shape(s: MippState, t: MippState, n: nat)
    requires
        mipp_shape(s, n),
        s.c.len() > 1,
        mipp_round(s) == Some(t),
    ensures
        mipp_shape(t, n),
        t.c.len() == s.c.len() / 2,
{
    lemma_half_power_of_two(s.c.len());
    lemma_halve_and_double(s.c.len(), s.comms.len());
}

/// A recursion keeps its shape to the end, where the vectors have one entry.
pub proof fn lemma_mipp_run_shape(s: MippState, f: MippState, n: nat)
    requires
        mipp_shape(s, n),
        mipp_run(s) == Some(f),
    ensures
        mipp_shape(f, n),
        f.c.len() == 1,
    decreases s.c.len(),
{
    if s.c.len() > 1 {
        let t = mipp_round(s).unwrap();
        lemma_mipp_round_shape(s, t, n);
        lemma_mipp_run_shape(t, f, n);
    }
}

/// A multi-exponentiation recursion on vectors of length `n`, a power of two, ends with
/// vectors and a key of one entry, after as many rounds as `n` has factors of two. The
/// polynomial of its inverse challenges, taken last first, has `n` coefficients.
pub proof fn lemma_mipp_rounds(
    c: Seq<Seq<u8>>,
    r: Seq<nat>,
    v: KeyView,
    f: MippState,
    shift: nat,
)
    requires
        is_power_of_two(c.len()),
        r.len() == c.len(),
        key_has_len(v, c.len()),
        mipp_run(mipp_start(c, r, v)) == Some(f),
    ensures
        f.c.len() == 1,
        f.r.len() == 1,
        key_has_len(f.v, 1),
        pow2(f.comms.len()) == c.len(),
        f.z_vec.len() == f.comms.len(),
        f.challenges.len() == f.comms.len(),
        f.challenges_inv.len() == f.comms.len(),
        coefficients(f.challenges_inv.reverse(), shift).len() == c.len(),
{
    let start = mipp_start(c, r, v);
    vstd::arithmetic::power2::lemma2_to64();
    assert(c.len() * 1 == c.len()) by (nonlinear_arith);
    lemma_mipp_run_shape(start, f, c.len());
    assert(1 * pow2(f.comms.len()) == pow2(f.comms.len())) by (nonlinear_arith);
    lemma_coefficients_len(f.challenges_inv.reverse(), shift);
}

} // verus!
