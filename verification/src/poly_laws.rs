//! The two forms of the transcript's polynomial agree: its list of coefficients, evaluated at a
//! point, gives what its product form gives there.
use crate::field::{fr_add, fr_mul, fr_pow, fr_sub, modulus};
use crate::field_laws::{
    congruent, lemma_add_associates, lemma_add_congruent, lemma_congruent_add,
    lemma_congruent_mul, lemma_congruent_reduced, lemma_identities, lemma_mul_associates,
    lemma_mul_commutes, lemma_mul_congruent, lemma_mul_distributes, lemma_mul_interchange,
    lemma_mul_swap, lemma_pow_congruent, lemma_pow_one, lemma_pow_sum, lemma_pow_zero,
    lemma_sub_congruent,
};
use crate::poly::{
    coefficients, evaluation_product, poly_eval, quotient, quotient_coefficient, scaled,
    squarings,
};
use vstd::arithmetic::div_mod::lemma_add_mod_noop;
use vstd::arithmetic::power2::{lemma_pow2_unfold, pow2};
use vstd::prelude::*;

verus! {

/// The value of a polynomial is reduced.
pub proof fn lemma_poly_eval_reduced(c: Seq<nat>, z: nat)
    ensures
        poly_eval(c, z) < modulus(),
{
    if c.len() > 0 {
        lemma_add_congruent(
            poly_eval(c.drop_last(), z),
            fr_mul(c.last(), fr_pow(z, (c.len() - 1) as nat)),
        );
    }
}

/// The value of two lists of coefficients put together: the value of the first, plus that of
/// the second times the point raised to the length of the first.
pub proof fn lemma_poly_eval_concat(a: Seq<nat>, b: Seq<nat>, z: nat)
    ensures
        poly_eval(a + b, z) == fr_add(
            poly_eval(a, z),
            fr_mul(fr_pow(z, a.len()), poly_eval(b, z)),
        ),
    decreases b.len(),
{
    let zp = fr_pow(z, a.len());
    let ea = poly_eval(a, z);
    lemma_poly_eval_reduced(a, z);
    lemma_pow_congruent(z, a.len());
    if b.len() == 0 {
        assert(a + b =~= a);
        lemma_identities(zp);
        lemma_identities(ea);
    } else {
        let b1 = b.drop_last();
        let x = b.last();
        let zq = fr_pow(z, b1.len());
        let eb1 = poly_eval(b1, z);
        assert((a + b).drop_last() =~= a + b1);
        assert((a + b).last() == x);
        assert((a + b).len() - 1 == a.len() + b1.len());
        lemma_poly_eval_concat(a, b1, z);
        lemma_mul_distributes(zp, eb1, fr_mul(x, zq));
        lemma_pow_sum(z, a.len(), b1.len());
        lemma_mul_swap(zp, x, zq);
        lemma_add_associates(ea, fr_mul(zp, eb1), fr_mul(x, fr_pow(z, a.len() + b1.len())));
    }
}

/// The value of a list of coefficients that were each multiplied by `k` is `k` times the
/// value of the list.
pub proof fn lemma_poly_eval_scaled(c: Seq<nat>, k: nat, z: nat)
    ensures
        poly_eval(scaled(c, k), z) == fr_mul(poly_eval(c, z), k),
    decreases c.len(),
{
    if c.len() == 0 {
        assert(0 * k == 0) by (nonlinear_arith);
    } else {
        let c1 = c.drop_last();
        let x = c.last();
        let zp = fr_pow(z, (c.len() - 1) as nat);
        assert(scaled(c, k).drop_last() =~= scaled(c1, k));
        assert(scaled(c, k).last() == fr_mul(x, k));
        lemma_poly_eval_scaled(c1, k, z);
        lemma_mul_associates(x, k, zp);
        lemma_mul_commutes(k, zp);
        lemma_mul_associates(x, zp, k);
        lemma_mul_distributes(k, poly_eval(c1, z), fr_mul(x, zp));
    }
}

/// The polynomial of a transcript has two to the power of the transcript's length many
/// coefficients.
pub proof fn lemma_coefficients_len(t: Seq<nat>, r: nat)
    ensures
        coefficients(t, r).len() == pow2(t.len()),
    decreases t.len(),
{
    if t.len() == 0 {
        vstd::arithmetic::power2::lemma2_to64();
    } else {
        lemma_coefficients_len(t.drop_last(), r);
        lemma_pow2_unfold(t.len());
    }
}

/// Squaring `i` times raises to the power `2^i`.
pub proof fn lemma_squarings_pow(x: nat, i: nat)
    requires
        x < modulus(),
    ensures
        squarings(x, i) == fr_pow(x, pow2(i)),
    decreases i,
{
    if i == 0 {
        vstd::arithmetic::power2::lemma2_to64();
        lemma_pow_one(x);
    } else {
        let p = pow2((i - 1) as nat);
        lemma_squarings_pow(x, (i - 1) as nat);
        lemma_pow2_unfold(i);
        lemma_pow_sum(x, p, p);
    }
}

/// Squaring a product `i` times gives the product of the factors squared `i` times.
pub proof fn lemma_squarings_mul(a: nat, b: nat, i: nat)
    ensures
        squarings(fr_mul(a, b), i) == fr_mul(squarings(a, i), squarings(b, i)),
    decreases i,
{
    if i > 0 {
        let j = (i - 1) as nat;
        lemma_squarings_mul(a, b, j);
        lemma_mul_interchange(squarings(a, j), squarings(b, j), squarings(a, j), squarings(b, j));
    }
}

/// The coefficients of a transcript's polynomial, evaluated at any point `z`, give the value
/// of the polynomial's product form at `z`.
pub proof fn lemma_coefficients_agree_with_product(t: Seq<nat>, z: nat, r: nat)
    requires
        z < modulus(),
        r < modulus(),
    ensures
        poly_eval(coefficients(t, r), z) == evaluation_product(t, z, r),
    decreases t.len(),
{
    if t.len() == 0 {
        let one = seq![1nat];
        assert(one.drop_last() =~= Seq::<nat>::empty());
        assert(poly_eval(one.drop_last(), z) == 0);
        assert(one.last() == 1);
        lemma_pow_zero(z);
        lemma_identities(1);
        assert(poly_eval(one, z) == fr_add(0, fr_mul(1, fr_pow(z, 0))));
    } else {
        let t1 = t.drop_last();
        let x = t.last();
        let m = t1.len();
        let c = coefficients(t1, r);
        let rm = squarings(r, m);
        let zm = squarings(z, m);
        let k = fr_mul(x, rm);
        let e = poly_eval(c, z);
        lemma_coefficients_agree_with_product(t1, z, r);
        lemma_coefficients_len(t1, r);
        lemma_poly_eval_concat(c, scaled(c, k), z);
        lemma_poly_eval_scaled(c, k, z);
        lemma_squarings_pow(z, m);
        assert(poly_eval(coefficients(t, r), z) == fr_add(e, fr_mul(zm, fr_mul(e, k))));
        lemma_squarings_mul(z, r, m);
        lemma_poly_eval_reduced(c, z);
        lemma_identities(e);
        lemma_mul_distributes(e, 1, fr_mul(x, fr_mul(zm, rm)));
        assert(evaluation_product(t, z, r) == fr_add(e, fr_mul(e, fr_mul(x, fr_mul(zm, rm)))));
        lemma_mul_swap(zm, e, k);
        lemma_mul_swap(zm, x, rm);
    }
}

/// The value of a polynomial is its constant coefficient plus the point times the value of
/// the polynomial of its other coefficients.
pub proof fn lemma_poly_eval_first(c: Seq<nat>, x: nat)
    requires
        c.len() > 0,
        x < modulus(),
    ensures
        poly_eval(c, x) == fr_add(c[0], fr_mul(x, poly_eval(c.drop_first(), x))),
{
    let head = seq![c[0]];
    let rest = c.drop_first();
    let m = modulus() as int;
    assert(head + rest =~= c);
    lemma_poly_eval_concat(head, rest, x);
    assert(head.drop_last() =~= Seq::<nat>::empty());
    assert(poly_eval(head.drop_last(), x) == 0);
    assert(head.last() == c[0]);
    lemma_pow_zero(x);
    lemma_pow_one(x);
    assert(c[0] * 1 == c[0]) by (nonlinear_arith);
    assert(poly_eval(head, x) == fr_add(0, fr_mul(c[0], 1)));
    vstd::arithmetic::div_mod::lemma_mod_twice(c[0] as int, m);
    lemma_add_mod_noop(c[0] as int, fr_mul(x, poly_eval(rest, x)) as int, m);
    lemma_mul_congruent(x, poly_eval(rest, x));
    vstd::arithmetic::div_mod::lemma_small_mod(fr_mul(x, poly_eval(rest, x)), modulus());
}

/// The quotient of a polynomial without its constant coefficient is the quotient of the
/// polynomial without its first coefficient.
pub proof fn lemma_quotient_shift(f: Seq<nat>, z: nat, i: int)
    requires
        f.len() > 0,
        i >= 0,
    ensures
        quotient_coefficient(f, z, i + 1) == quotient_coefficient(f.drop_first(), z, i),
    decreases f.len() - i,
{
    if i + 2 < f.len() {
        lemma_quotient_shift(f, z, i + 1);
        assert(f.drop_first()[i + 1] == f[i + 2]);
    }
}

/// The lowest coefficient of the quotient by `X - z` is the value at `z` of the polynomial
/// without its constant coefficient.
pub proof fn lemma_quotient_head(f: Seq<nat>, z: nat)
    requires
        f.len() > 0,
        z < modulus(),
    ensures
        quotient_coefficient(f, z, 0) == poly_eval(f.drop_first(), z),
    decreases f.len(),
{
    let g = f.drop_first();
    if f.len() > 1 {
        lemma_quotient_shift(f, z, 0);
        lemma_quotient_head(g, z);
        lemma_poly_eval_first(g, z);
        assert(g[0] == f[1]);
    }
}

/// Division by `X - z` leaves the value at `z` as its remainder: at every point `x`, the
/// polynomial is its quotient times `x - z`, plus its value at `z`. So the quotient of a
/// polynomial less its value at `z` divides without remainder.
pub proof fn lemma_quotient_divides(f: Seq<nat>, z: nat, x: nat)
    requires
        z < modulus(),
        x < modulus(),
    ensures
        poly_eval(f, x) == fr_add(
            fr_mul(poly_eval(quotient(f, z), x), fr_sub(x, z)),
            poly_eval(f, z),
        ),
    decreases f.len(),
{
    let q = quotient(f, z);
    let d = fr_sub(x, z);
    lemma_sub_congruent(x, z);
    lemma_poly_eval_reduced(f, x);
    lemma_poly_eval_reduced(f, z);
    if f.len() == 0 {
        assert(0 * d == 0) by (nonlinear_arith);
    } else if f.len() == 1 {
        assert(q.len() == 0);
        assert(0 * d == 0) by (nonlinear_arith);
        lemma_poly_eval_first(f, x);
        lemma_poly_eval_first(f, z);
        lemma_identities(poly_eval(f, z));
        assert(x * 0 == 0 && z * 0 == 0) by (nonlinear_arith);
    } else {
        let g = f.drop_first();
        let qg = quotient(g, z);
        let f0 = f[0] as int;
        let (xi, zi) = (x as int, z as int);
        let eg = poly_eval(g, x);
        let zg = poly_eval(g, z);
        let qx = poly_eval(qg, x);
        lemma_quotient_divides(g, z, x);
        lemma_quotient_head(f, z);
        assert(q.drop_first() =~= qg) by {
            assert forall|i: int| 0 <= i < qg.len() implies q.drop_first()[i] == qg[i] by {
                lemma_quotient_shift(f, z, i);
            }
        }
        lemma_poly_eval_first(q, x);
        lemma_poly_eval_first(f, x);
        lemma_poly_eval_first(f, z);
        // the value at x: f0 + x (qg(x) (x - z) + g(z))
        lemma_mul_congruent(qx, d);
        lemma_congruent_mul(qx as int, qx as int, d as int, xi - zi);
        lemma_add_congruent(fr_mul(qx, d), zg);
        lemma_congruent_add(fr_mul(qx, d) as int, qx * (xi - zi), zg as int, zg as int);
        assert(congruent(eg as int, qx * (xi - zi) + zg));
        lemma_mul_congruent(x, eg);
        lemma_congruent_mul(xi, xi, eg as int, qx * (xi - zi) + zg);
        lemma_add_congruent(f[0], fr_mul(x, eg));
        lemma_congruent_add(f0, f0, fr_mul(x, eg) as int, xi * (qx * (xi - zi) + zg));
        let left = f0 + xi * (qx * (xi - zi) + zg);
        assert(congruent(poly_eval(f, x) as int, left));
        // the quotient at x: g(z) + x qg(x), and the value at z: f0 + z g(z)
        let qv = poly_eval(q, x);
        lemma_mul_congruent(x, qx);
        lemma_add_congruent(zg, fr_mul(x, qx));
        lemma_congruent_add(zg as int, zg as int, fr_mul(x, qx) as int, xi * qx);
        assert(congruent(qv as int, zg + xi * qx));
        lemma_mul_congruent(qv, d);
        lemma_congruent_mul(qv as int, zg + xi * qx, d as int, xi - zi);
        let fz = poly_eval(f, z);
        lemma_mul_congruent(z, zg);
        lemma_add_congruent(f[0], fr_mul(z, zg));
        lemma_congruent_add(f0, f0, fr_mul(z, zg) as int, zi * zg);
        assert(congruent(fz as int, f0 + zi * zg));
        lemma_add_congruent(fr_mul(qv, d), fz);
        lemma_congruent_add(
            fr_mul(qv, d) as int,
            (zg + xi * qx) * (xi - zi),
            fz as int,
            f0 + zi * zg,
        );
        let right = (zg + xi * qx) * (xi - zi) + (f0 + zi * zg);
        assert(left == right) by (nonlinear_arith)
            requires
                left == f0 + xi * (qx * (xi - zi) + zg),
                right == (zg + xi * qx) * (xi - zi) + (f0 + zi * zg),
        ;
        lemma_congruent_reduced(poly_eval(f, x), fr_add(fr_mul(qv, d), fz));
    }
}

} // verus!
