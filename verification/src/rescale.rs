//! Rescaling for aggregation.
//!
//! Before the pairing product of a batch is proved, the vector `A` is raised, entry by entry,
//! to the powers of the randomness `r`, and the key `v` to the powers of its inverse. The two
//! cancel in each pairing, so the commitment to the rescaled vector under the rescaled key is
//! the commitment to `A` under `v`: the verifier can start from the commitment that it knows.
use crate::commit::{each_undone, key_has_len, pair_commitment, vkey_scaled, KeyView, VKey};
use crate::curve::{g1_scaled, g1_views, pairing, pairing_fold, scalar_crosses, G1};
use crate::error::SynthesisError;
use crate::field::{fr_inverse, fr_pow, fr_values, is_fr_inverse, modulus, Fr};
use crate::field_laws::lemma_inverse_powers;
use crate::inner_product::pairing_product;
use crate::srs::{powers, structured_scalar_power};
use crate::vectors::{g1_scale_each, g1_scale_vector};
use vstd::prelude::*;

verus! {

/// Two pairs of lists whose entries have the same pairings, entry by entry, have the same
/// product of pairings.
pub proof fn lemma_pairing_fold_agrees(
    ps: Seq<Seq<u8>>,
    qs: Seq<Seq<u8>>,
    ps2: Seq<Seq<u8>>,
    qs2: Seq<Seq<u8>>,
)
    requires
        ps.len() > 0,
        ps.len() == qs.len(),
        ps.len() == ps2.len(),
        ps.len() == qs2.len(),
        forall|i: int|
            #![trigger ps[i]]
            0 <= i < ps.len() ==> pairing(ps[i], qs[i]) == pairing(ps2[i], qs2[i]),
    ensures
        pairing_fold(ps, qs) == pairing_fold(ps2, qs2),
    decreases ps.len(),
{
    if ps.len() > 1 {
        let last = ps.len() - 1;
        assert forall|i: int| #![trigger ps.drop_last()[i]] 0 <= i < last implies pairing(
            ps.drop_last()[i],
            qs.drop_last()[i],
        ) == pairing(ps2.drop_last()[i], qs2.drop_last()[i]) by {
            assert(ps[i] == ps.drop_last()[i]);
        }
        lemma_pairing_fold_agrees(
            ps.drop_last(),
            qs.drop_last(),
            ps2.drop_last(),
            qs2.drop_last(),
        );
        assert(ps[last] == ps.last());
    } else {
        assert(ps[0] == ps[0]);
    }
}

/// Whether each entry of `a_r` is the entry of `a` raised to its power of `r`, and behaves
/// so in pairings.
pub open spec fn each_crosses(a: Seq<Seq<u8>>, r: nat, a_r: Seq<Seq<u8>>) -> bool {
    forall|i: int|
        0 <= i < a.len() ==> scalar_crosses(#[trigger] a[i], fr_pow(r, i as nat), a_r[i])
}

/// The product of the pairings of `a_r` and `w` with `v_r` and `b` is that of `a` and `w`
/// with `v` and `b`, where `a_r` and `v_r` are `a` and `v` raised to the powers of `r` and of
/// its inverse.
proof fn lemma_rescaled_product(
    v: Seq<Seq<u8>>,
    w: Seq<Seq<u8>>,
    a: Seq<Seq<u8>>,
    b: Seq<Seq<u8>>,
    v_r: Seq<Seq<u8>>,
    a_r: Seq<Seq<u8>>,
    r: nat,
    r_inv: nat,
)
    requires
        v.len() == a.len(),
        v_r.len() == a.len(),
        a_r.len() == a.len(),
        w.len() == b.len(),
        r < modulus(),
        is_fr_inverse(r, r_inv),
        each_crosses(a, r, a_r),
        each_undone(v, powers(r_inv, a.len()), v_r),
    ensures
        pairing_product(a_r + w, v_r + b) == pairing_product(a + w, v + b),
{
    let n = a.len() as int;
    let (ps, qs, ps2, qs2) = (a_r + w, v_r + b, a + w, v + b);
    if ps.len() == 0 {
        assert(ps =~= ps2);
        assert(qs =~= qs2);
    } else {
        assert forall|i: int| #![trigger ps[i]] 0 <= i < ps.len() implies pairing(ps[i], qs[i])
            == pairing(ps2[i], qs2[i]) by {
            if i < n {
                let s = fr_pow(r, i as nat);
                let t = fr_pow(r_inv, i as nat);
                lemma_inverse_powers(r, r_inv, i as nat);
                assert(powers(r_inv, a.len())[i] == t);
                // e(s a, t v) = e(a, s t v) = e(a, v)
                assert(scalar_crosses(a[i], s, a_r[i]));
                assert(crate::curve::g2_valid(v_r[i]));
                assert(pairing(a_r[i], v_r[i]) == pairing(
                    a[i],
                    crate::curve::g2_scaled(v_r[i], s),
                ));
                assert(crate::curve::scalar_undone(v[i], t, v_r[i]));
                assert((s * t) % modulus() == 1);
                assert(crate::curve::g2_scaled(v_r[i], s) == v[i]);
            }
        }
        lemma_pairing_fold_agrees(ps, qs, ps2, qs2);
    }
}

/// The commitment to a rescaled vector under the rescaled key is the commitment to the vector
/// under the key: where `a_r` is `a` raised to the powers of `r`, and `v_r` is `v` raised to
/// the powers of the inverse of `r`, the pair commitment to `a_r` and any `b` under `v_r` and
/// any `w` is that to `a` and `b` under `v` and `w`.
pub proof fn lemma_rescaled_commitment(
    v: KeyView,
    w: KeyView,
    a: Seq<Seq<u8>>,
    b: Seq<Seq<u8>>,
    v_r: KeyView,
    a_r: Seq<Seq<u8>>,
    r: nat,
    r_inv: nat,
)
    requires
        key_has_len(v, a.len()),
        key_has_len(v_r, a.len()),
        key_has_len(w, b.len()),
        a_r.len() == a.len(),
        r < modulus(),
        is_fr_inverse(r, r_inv),
        each_crosses(a, r, a_r),
        each_undone(v.a, powers(r_inv, a.len()), v_r.a),
        each_undone(v.b, powers(r_inv, a.len()), v_r.b),
    ensures
        pair_commitment(v_r, w, a_r, b) == pair_commitment(v, w, a, b),
{
    lemma_rescaled_product(v.a, w.a, a, b, v_r.a, a_r, r, r_inv);
    lemma_rescaled_product(v.b, w.b, a, b, v_r.b, a_r, r, r_inv);
}

/// Raises `a`, entry by entry, to the powers `1, r, r^2, ...` of `r`, and the key `vkey` to
/// the powers of the inverse of `r`. It returns the rescaled vector, the powers of `r`, and
/// the rescaled key, and fails with `MalformedSrs` where the key has not the length of `a`.
/// The pair commitment to the rescaled vector and any `b` under the rescaled key and any `w`
/// is the commitment to `a` and `b` under `vkey` and `w`.
pub fn rescale(a: &Vec<G1>, vkey: &VKey, r: &Fr) -> (res: Result<
    (Vec<G1>, Vec<Fr>, VKey),
    SynthesisError,
>)
    requires
        r@ != 0,
    ensures
        match res {
            Ok((a_r, r_vec, v_r)) => {
                &&& key_has_len(vkey@, a@.len())
                &&& fr_values(r_vec@) == powers(r@, a@.len())
                &&& g1_views(a_r@) == g1_scale_each(g1_views(a@), powers(r@, a@.len()))
                &&& v_r@ == vkey_scaled(vkey@, powers(fr_inverse(r@), a@.len()))
                &&& forall|w: KeyView, b: Seq<Seq<u8>>|
                    key_has_len(w, b.len()) ==> #[trigger] pair_commitment(
                        v_r@,
                        w,
                        g1_views(a_r@),
                        b,
                    ) == pair_commitment(vkey@, w, g1_views(a@), b)
            },
            Err(e) => e == SynthesisError::MalformedSrs && !key_has_len(vkey@, a@.len()),
        },
{
    if !vkey.has_correct_len(a.len()) {
        return Err(SynthesisError::MalformedSrs);
    }
    let r_inverse = match r.inverse() {
        Some(x) => x,
        None => vstd::pervasive::unreached(),
    };
    // 1, r, r^2, ... and 1, r^-1, r^-2, ...
    let r_vec = structured_scalar_power(a.len(), r);
    let r_inv = structured_scalar_power(a.len(), &r_inverse);
    proof {
        assert(r_vec@.len() == fr_values(r_vec@).len());
        assert(r_inv@.len() == fr_values(r_inv@).len());
    }
    let a_r = g1_scale_vector(a, &r_vec);
    let v_r = match vkey.scale(&r_inv) {
        Ok(k) => k,
        Err(e) => {
            return Err(e);
        },
    };
    proof {
        use_type_invariant(r);
        let n = a@.len();
        assert(g1_views(a_r@).len() == n);
        assert forall|i: int| 0 <= i < n implies scalar_crosses(
            #[trigger] g1_views(a@)[i],
            fr_pow(r@, i as nat),
            g1_views(a_r@)[i],
        ) by {
            assert(fr_values(r_vec@)[i] == r_vec@[i]@);
            assert(powers(r@, n)[i] == fr_pow(r@, i as nat));
            assert(scalar_crosses(a@[i]@, r_vec@[i]@, g1_scaled(a@[i]@, r_vec@[i]@)));
            assert(g1_views(a_r@)[i] == g1_scaled(g1_views(a@)[i], powers(r@, n)[i]));
        }
        assert forall|w: KeyView, b: Seq<Seq<u8>>| key_has_len(w, b.len()) implies
            #[trigger] pair_commitment(v_r@, w, g1_views(a_r@), b) == pair_commitment(
            vkey@,
            w,
            g1_views(a@),
            b,
        ) by {
            lemma_rescaled_commitment(
                vkey@,
                w,
                g1_views(a@),
                b,
                v_r@,
                g1_views(a_r@),
                r@,
                r_inverse@,
            );
        }
    }
    Ok((a_r, r_vec, v_r))
}

} // verus!
