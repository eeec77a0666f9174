//! Commitment keys and the commitments made with them.
//!
//! A key `v` is a pair of vectors of G2, a key `w` a pair of vectors of G1. A pair commitment
//! binds a vector `A` of G1 and a vector `B` of G2 at once:
//! `T = e(A, v.a) e(w.a, B)` and `U = e(A, v.b) e(w.b, B)`, where `e` of two vectors is the
//! product of the pairings of their entries. A single commitment binds `A` alone, under `v`.
use crate::curve::{g1_views, g2_scaled, g2_valid, g2_views, scalar_undone, Fqk, G1, G2};
use crate::error::SynthesisError;
use crate::field::{fr_values, Fr};
use crate::inner_product::{pairing, pairing_product};
use crate::vectors::{
    g1_concat, g1_fold_vector, g1_folded, g1_range, g1_scale_each, g1_scale_vector, g2_concat,
    g2_fold_vector, g2_folded, g2_range, g2_scale_each, g2_scale_vector,
};
use vstd::prelude::*;

verus! {

/// What a commitment key stands for: the encodings of its two vectors of points.
pub struct KeyView {
    pub a: Seq<Seq<u8>>,
    pub b: Seq<Seq<u8>>,
}

/// The commitment key `v`: two vectors of G2 of the same length.
#[derive(Clone, Debug, PartialEq, Eq)]
pub struct VKey {
    pub a: Vec<G2>,
    pub b: Vec<G2>,
}

/// The commitment key `w`: two vectors of G1 of the same length.
#[derive(Clone, Debug, PartialEq, Eq)]
pub struct WKey {
    pub a: Vec<G1>,
    pub b: Vec<G1>,
}

impl View for VKey {
    type V = KeyView;

    open spec fn view(&self) -> KeyView {
        KeyView { a: g2_views(self.a@), b: g2_views(self.b@) }
    }
}

impl View for WKey {
    type V = KeyView;

    open spec fn view(&self) -> KeyView {
        KeyView { a: g1_views(self.a@), b: g1_views(self.b@) }
    }
}

/// Whether both vectors of a key have the length `n`.
pub open spec fn key_has_len(k: KeyView, n: nat) -> bool {
    k.a.len() == n && k.b.len() == n
}

/// The entries of a key before `at`.
pub open spec fn key_left(k: KeyView, at: int) -> KeyView {
    KeyView { a: k.a.subrange(0, at), b: k.b.subrange(0, at) }
}

/// The entries of a key from `at` on.
pub open spec fn key_right(k: KeyView, at: int) -> KeyView {
    KeyView { a: k.a.subrange(at, k.a.len() as int), b: k.b.subrange(at, k.b.len() as int) }
}

/// The first entries of a key's two vectors.
pub open spec fn key_first(k: KeyView) -> (Seq<u8>, Seq<u8>) {
    (k.a[0], k.b[0])
}

/// A key `v` with each entry raised to its own scalar.
pub open spec fn vkey_scaled(k: KeyView, s: Seq<nat>) -> KeyView {
    KeyView { a: g2_scale_each(k.a, s), b: g2_scale_each(k.b, s) }
}

/// Two halves of a key `v` folded into one: `left[i] * right[i]^c`.
pub open spec fn vkey_compressed(left: KeyView, right: KeyView, c: nat) -> KeyView {
    KeyView { a: g2_folded(left.a, right.a, c), b: g2_folded(left.b, right.b, c) }
}

/// A key `w` with each entry raised to its own scalar.
pub open spec fn wkey_scaled(k: KeyView, s: Seq<nat>) -> KeyView {
    KeyView { a: g1_scale_each(k.a, s), b: g1_scale_each(k.b, s) }
}

/// Two halves of a key `w` folded into one: `left[i] * right[i]^c`.
pub open spec fn wkey_compressed(left: KeyView, right: KeyView, c: nat) -> KeyView {
    KeyView { a: g1_folded(left.a, right.a, c), b: g1_folded(left.b, right.b, c) }
}

/// The pair commitment to `a` and `b` under the keys `v` and `w`: the products of the
/// pairings `e(a[i], v.a[i])` and `e(w.a[i], b[i])`, and of the same with `v.b` and `w.b`.
pub open spec fn pair_commitment(v: KeyView, w: KeyView, a: Seq<Seq<u8>>, b: Seq<Seq<u8>>) -> (
    Seq<u8>,
    Seq<u8>,
) {
    (pairing_product(a + w.a, v.a + b), pairing_product(a + w.b, v.b + b))
}

/// The single commitment to `c` under the key `v`: the product of the pairings
/// `e(c[i], v.a[i])`, and of the same with `v.b`.
pub open spec fn single_commitment(v: KeyView, c: Seq<Seq<u8>>) -> (Seq<u8>, Seq<u8>) {
    (pairing_product(c, v.a), pairing_product(c, v.b))
}

/// Whether each entry of `r` is the entry of `q` multiplied by its scalar of `s`, and can be
/// taken back by a scalar that is inverse to it.
pub open spec fn each_undone(q: Seq<Seq<u8>>, s: Seq<nat>, r: Seq<Seq<u8>>) -> bool {
    forall|i: int|
        0 <= i < q.len() ==> g2_valid(#[trigger] r[i]) && r[i] == g2_scaled(q[i], s[i])
            && scalar_undone(q[i], s[i], r[i])
}

impl VKey {
    /// Whether both vectors of the key have the length `n`.
    pub fn has_correct_len(&self, n: usize) -> (r: bool)
        ensures
            r == key_has_len(self@, n as nat),
    {
        self.a.len() == n && self.b.len() == n
    }

    /// A copy of the key.
    pub fn duplicate(&self) -> (r: VKey)
        ensures
            r@ == self@,
            r.a@ == self.a@,
            r.b@ == self.b@,
    {
        let r = VKey {
            a: g2_range(&self.a, 0, self.a.len()),
            b: g2_range(&self.b, 0, self.b.len()),
        };
        proof {
            assert(r.a@ =~= self.a@);
            assert(r.b@ =~= self.b@);
        }
        r
    }

    /// The key with each entry raised to its own scalar of `s`. It fails with `MalformedSrs`
    /// when the key has not the length of `s`.
    pub fn scale(&self, s: &Vec<Fr>) -> (r: Result<VKey, SynthesisError>)
        ensures
            match r {
                Ok(k) => key_has_len(self@, s@.len()) && k@ == vkey_scaled(
                    self@,
                    fr_values(s@),
                ) && each_undone(self@.a, fr_values(s@), k@.a) && each_undone(
                    self@.b,
                    fr_values(s@),
                    k@.b,
                ),
                Err(e) => e == SynthesisError::MalformedSrs && !key_has_len(self@, s@.len()),
            },
    {
        if !self.has_correct_len(s.len()) {
            return Err(SynthesisError::MalformedSrs);
        }
        Ok(VKey { a: g2_scale_vector(&self.a, s), b: g2_scale_vector(&self.b, s) })
    }

    /// The key's entries before `at`, and those from `at` on.
    pub fn split(&self, at: usize) -> (r: (VKey, VKey))
        requires
            at <= self.a.len(),
            at <= self.b.len(),
        ensures
            r.0@ == key_left(self@, at as int),
            r.1@ == key_right(self@, at as int),
    {
        let left = VKey { a: g2_range(&self.a, 0, at), b: g2_range(&self.b, 0, at) };
        let right = VKey {
            a: g2_range(&self.a, at, self.a.len()),
            b: g2_range(&self.b, at, self.b.len()),
        };
        (left, right)
    }

    /// Folds two halves into one key: `left[i] * right[i]^scale`. It fails with
    /// `MalformedSrs` when the four vectors are not of one length.
    pub fn compress(left: &VKey, right: &VKey, scale: &Fr) -> (r: Result<VKey, SynthesisError>)
        ensures
            match r {
                Ok(k) => key_has_len(left@, left.a@.len()) && key_has_len(right@, left.a@.len())
                    && k@ == vkey_compressed(left@, right@, scale@),
                Err(e) => e == SynthesisError::MalformedSrs && !(key_has_len(
                    left@,
                    left.a@.len(),
                ) && key_has_len(right@, left.a@.len())),
            },
    {
        let n = left.a.len();
        if !left.has_correct_len(n) || !right.has_correct_len(n) {
            return Err(SynthesisError::MalformedSrs);
        }
        Ok(
            VKey {
                a: g2_fold_vector(&left.a, &right.a, scale),
                b: g2_fold_vector(&left.b, &right.b, scale),
            },
        )
    }

    /// The first entries of the key's two vectors.
    pub fn first(&self) -> (r: (G2, G2))
        requires
            self.a.len() > 0,
            self.b.len() > 0,
        ensures
            (r.0@, r.1@) == key_first(self@),
    {
        (self.a[0], self.b[0])
    }
}

impl WKey {
    /// Whether both vectors of the key have the length `n`.
    pub fn has_correct_len(&self, n: usize) -> (r: bool)
        ensures
            r == key_has_len(self@, n as nat),
    {
        self.a.len() == n && self.b.len() == n
    }

    /// A copy of the key.
    pub fn duplicate(&self) -> (r: WKey)
        ensures
            r@ == self@,
            r.a@ == self.a@,
            r.b@ == self.b@,
    {
        let r = WKey {
            a: g1_range(&self.a, 0, self.a.len()),
            b: g1_range(&self.b, 0, self.b.len()),
        };
        proof {
            assert(r.a@ =~= self.a@);
            assert(r.b@ =~= self.b@);
        }
        r
    }

    /// The key with each entry raised to its own scalar of `s`. It fails with `MalformedSrs`
    /// when the key has not the length of `s`.
    pub fn scale(&self, s: &Vec<Fr>) -> (r: Result<WKey, SynthesisError>)
        ensures
            match r {
                Ok(k) => key_has_len(self@, s@.len()) && k@ == wkey_scaled(
                    self@,
                    fr_values(s@),
                ),
                Err(e) => e == SynthesisError::MalformedSrs && !key_has_len(self@, s@.len()),
            },
    {
        if !self.has_correct_len(s.len()) {
            return Err(SynthesisError::MalformedSrs);
        }
        Ok(WKey { a: g1_scale_vector(&self.a, s), b: g1_scale_vector(&self.b, s) })
    }

    /// The key's entries before `at`, and those from `at` on.
    pub fn split(&self, at: usize) -> (r: (WKey, WKey))
        requires
            at <= self.a.len(),
            at <= self.b.len(),
        ensures
            r.0@ == key_left(self@, at as int),
            r.1@ == key_right(self@, at as int),
    {
        let left = WKey { a: g1_range(&self.a, 0, at), b: g1_range(&self.b, 0, at) };
        let right = WKey {
            a: g1_range(&self.a, at, self.a.len()),
            b: g1_range(&self.b, at, self.b.len()),
        };
        (left, right)
    }

    /// Folds two halves into one key: `left[i] * right[i]^scale`. It fails with
    /// `MalformedSrs` when the four vectors are not of one length.
    pub fn compress(left: &WKey, right: &WKey, scale: &Fr) -> (r: Result<WKey, SynthesisError>)
        ensures
            match r {
                Ok(k) => key_has_len(left@, left.a@.len()) && key_has_len(right@, left.a@.len())
                    && k@ == wkey_compressed(left@, right@, scale@),
                Err(e) => e == SynthesisError::MalformedSrs && !(key_has_len(
                    left@,
                    left.a@.len(),
                ) && key_has_len(right@, left.a@.len())),
            },
    {
        let n = left.a.len();
        if !left.has_correct_len(n) || !right.has_correct_len(n) {
            return Err(SynthesisError::MalformedSrs);
        }
        Ok(
            WKey {
                a: g1_fold_vector(&left.a, &right.a, scale),
                b: g1_fold_vector(&left.b, &right.b, scale),
            },
        )
    }

    /// The first entries of the key's two vectors.
    pub fn first(&self) -> (r: (G1, G1))
        requires
            self.a.len() > 0,
            self.b.len() > 0,
        ensures
            (r.0@, r.1@) == key_first(self@),
    {
        (self.a[0], self.b[0])
    }
}

/// Commits to the vectors `a` and `b` at once, under the keys `vkey` and `wkey`. It fails with
/// `MalformedProofs` when `a` and `b` differ in length, and else with `MalformedSrs` when a
/// key has not their length.
pub fn pair(vkey: &VKey, wkey: &WKey, a: &Vec<G1>, b: &Vec<G2>) -> (r: Result<
    (Fqk, Fqk),
    SynthesisError,
>)
    ensures
        match r {
            Ok((t, u)) => a@.len() == b@.len() && key_has_len(vkey@, a@.len()) && key_has_len(
                wkey@,
                a@.len(),
            ) && (t@, u@) == pair_commitment(vkey@, wkey@, g1_views(a@), g2_views(b@)),
            Err(e) => if a@.len() != b@.len() {
                e == SynthesisError::MalformedProofs
            } else {
                e == SynthesisError::MalformedSrs && !(key_has_len(vkey@, a@.len())
                    && key_has_len(wkey@, a@.len()))
            },
        },
{
    if a.len() != b.len() {
        return Err(SynthesisError::MalformedProofs);
    }
    if !vkey.has_correct_len(a.len()) || !wkey.has_correct_len(a.len()) {
        return Err(SynthesisError::MalformedSrs);
    }
    // e(a, v.a) e(w.a, b) and e(a, v.b) e(w.b, b), each with one joint Miller loop
    let t = pairing(&g1_concat(a, &wkey.a), &g2_concat(&vkey.a, b));
    let u = pairing(&g1_concat(a, &wkey.b), &g2_concat(&vkey.b, b));
    Ok((t, u))
}

/// Commits to the vector `c` under the key `vkey`. It fails with `MalformedSrs` when the key
/// has not the length of `c`.
pub fn single_g1(vkey: &VKey, c: &Vec<G1>) -> (r: Result<(Fqk, Fqk), SynthesisError>)
    ensures
        match r {
            Ok((t, u)) => key_has_len(vkey@, c@.len()) && (t@, u@) == single_commitment(
                vkey@,
                g1_views(c@),
            ),
            Err(e) => e == SynthesisError::MalformedSrs && !key_has_len(vkey@, c@.len()),
        },
{
    if !vkey.has_correct_len(c.len()) {
        return Err(SynthesisError::MalformedSrs);
    }
    let t = pairing(c, &vkey.a);
    let u = pairing(c, &vkey.b);
    Ok((t, u))
}

} // verus!
