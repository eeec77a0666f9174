//! Laws of the arithmetic of the scalar field, proved from its definition as arithmetic
//! modulo the field's order.
use crate::field::{fr_add, fr_mul, fr_neg, fr_pow, fr_sub, is_fr_inverse, modulus};
use vstd::arithmetic::div_mod::{
    lemma_add_mod_noop, lemma_mod_multiples_vanish, lemma_mod_twice, lemma_mul_mod_noop_general,
    lemma_small_mod, lemma_sub_mod_noop,
};
use vstd::arithmetic::power::{lemma_pow0, lemma_pow1, lemma_pow_adds, pow};
use vstd::prelude::*;

verus! {

/// Whether two integers leave the same remainder on division by the field's order.
pub open spec fn congruent(a: int, b: int) -> bool {
    a % (modulus() as int) == b % (modulus() as int)
}

/// Two reduced numbers that are congruent are equal.
pub proof fn lemma_congruent_reduced(a: nat, b: nat)
    requires
        a < modulus(),
        b < modulus(),
        congruent(a as int, b as int),
    ensures
        a == b,
{
    lemma_small_mod(a, modulus());
    lemma_small_mod(b, modulus());
}

/// Products of congruent numbers are congruent.
pub proof fn lemma_congruent_mul(a: int, a2: int, b: int, b2: int)
    requires
        congruent(a, a2),
        congruent(b, b2),
    ensures
        congruent(a * b, a2 * b2),
{
    let m = modulus() as int;
    lemma_mul_mod_noop_general(a, b, m);
    lemma_mul_mod_noop_general(a2, b2, m);
}

/// Sums of congruent numbers are congruent.
pub proof fn lemma_congruent_add(a: int, a2: int, b: int, b2: int)
    requires
        congruent(a, a2),
        congruent(b, b2),
    ensures
        congruent(a + b, a2 + b2),
{
    let m = modulus() as int;
    lemma_add_mod_noop(a, b, m);
    lemma_add_mod_noop(a2, b2, m);
}

/// A product in the field is reduced, and congruent to the product of the integers.
pub proof fn lemma_mul_congruent(a: nat, b: nat)
    ensures
        fr_mul(a, b) < modulus(),
        congruent(fr_mul(a, b) as int, (a * b) as int),
{
    lemma_mod_twice((a * b) as int, modulus() as int);
}

/// A sum in the field is reduced, and congruent to the sum of the integers.
pub proof fn lemma_add_congruent(a: nat, b: nat)
    ensures
        fr_add(a, b) < modulus(),
        congruent(fr_add(a, b) as int, (a + b) as int),
{
    lemma_mod_twice((a + b) as int, modulus() as int);
}

/// A power in the field is reduced, and congruent to the power of the integer.
pub proof fn lemma_pow_congruent(a: nat, e: nat)
    ensures
        fr_pow(a, e) < modulus(),
        congruent(fr_pow(a, e) as int, pow(a as int, e)),
{
    lemma_mod_twice(pow(a as int, e), modulus() as int);
}

/// A difference in the field is reduced, and congruent to the difference of the integers.
pub proof fn lemma_sub_congruent(a: nat, b: nat)
    ensures
        fr_sub(a, b) < modulus(),
        congruent(fr_sub(a, b) as int, a - b),
{
    let m = modulus() as int;
    let bi = b as int;
    let minus = fr_neg(b) as int;
    // the negation of b is congruent to -b
    lemma_mod_twice(m - bi % m, m);
    lemma_mod_multiples_vanish(1, -(bi % m), m);
    lemma_sub_mod_noop(0, bi, m);
    lemma_small_mod(0, modulus());
    assert(congruent(minus, -b));
    lemma_add_congruent(a, fr_neg(b));
    lemma_congruent_add(a as int, a as int, minus, -b);
}

/// A number has at most one inverse in the field.
pub proof fn lemma_inverse_is_unique(a: nat, x: nat, y: nat)
    requires
        is_fr_inverse(a, x),
        is_fr_inverse(a, y),
    ensures
        x == y,
{
    let (ai, xi, yi) = (a as int, x as int, y as int);
    lemma_small_mod(1, modulus());
    // x = x (a y) = (a x) y = y
    lemma_congruent_mul(xi, xi, ai * yi, 1);
    lemma_congruent_mul(ai * xi, 1, yi, yi);
    assert(xi * (ai * yi) == (ai * xi) * yi) by (nonlinear_arith);
    assert(xi * 1 == xi && 1 * yi == yi) by (nonlinear_arith);
    lemma_congruent_reduced(x, y);
}

/// Multiplication in the field is commutative.
pub proof fn lemma_mul_commutes(a: nat, b: nat)
    ensures
        fr_mul(a, b) == fr_mul(b, a),
{
    assert(a * b == b * a) by (nonlinear_arith);
}

/// Multiplication in the field is associative.
pub proof fn lemma_mul_associates(a: nat, b: nat, c: nat)
    ensures
        fr_mul(fr_mul(a, b), c) == fr_mul(a, fr_mul(b, c)),
{
    lemma_mul_congruent(a, b);
    lemma_mul_congruent(b, c);
    lemma_mul_congruent(fr_mul(a, b), c);
    lemma_mul_congruent(a, fr_mul(b, c));
    lemma_congruent_mul(fr_mul(a, b) as int, (a * b) as int, c as int, c as int);
    lemma_congruent_mul(a as int, a as int, fr_mul(b, c) as int, (b * c) as int);
    assert((a * b) * c == a * (b * c)) by (nonlinear_arith);
    lemma_congruent_reduced(fr_mul(fr_mul(a, b), c), fr_mul(a, fr_mul(b, c)));
}

/// Addition in the field is associative.
pub proof fn lemma_add_associates(a: nat, b: nat, c: nat)
    ensures
        fr_add(fr_add(a, b), c) == fr_add(a, fr_add(b, c)),
{
    lemma_add_congruent(a, b);
    lemma_add_congruent(b, c);
    lemma_add_congruent(fr_add(a, b), c);
    lemma_add_congruent(a, fr_add(b, c));
    lemma_congruent_add(fr_add(a, b) as int, (a + b) as int, c as int, c as int);
    lemma_congruent_add(a as int, a as int, fr_add(b, c) as int, (b + c) as int);
    lemma_congruent_reduced(fr_add(fr_add(a, b), c), fr_add(a, fr_add(b, c)));
}

/// Multiplication in the field distributes over addition.
pub proof fn lemma_mul_distributes(a: nat, b: nat, c: nat)
    ensures
        fr_mul(a, fr_add(b, c)) == fr_add(fr_mul(a, b), fr_mul(a, c)),
        fr_mul(fr_add(b, c), a) == fr_add(fr_mul(b, a), fr_mul(c, a)),
{
    lemma_add_congruent(b, c);
    lemma_mul_congruent(a, fr_add(b, c));
    lemma_congruent_mul(a as int, a as int, fr_add(b, c) as int, (b + c) as int);
    lemma_mul_congruent(a, b);
    lemma_mul_congruent(a, c);
    lemma_add_congruent(fr_mul(a, b), fr_mul(a, c));
    lemma_congruent_add(fr_mul(a, b) as int, (a * b) as int, fr_mul(a, c) as int, (a * c) as int);
    assert(a * (b + c) == a * b + a * c) by (nonlinear_arith);
    lemma_congruent_reduced(fr_mul(a, fr_add(b, c)), fr_add(fr_mul(a, b), fr_mul(a, c)));
    lemma_mul_commutes(fr_add(b, c), a);
    lemma_mul_commutes(b, a);
    lemma_mul_commutes(c, a);
}

/// One is the identity of multiplication on reduced numbers, zero that of addition, and a
/// product with zero is zero.
pub proof fn lemma_identities(a: nat)
    requires
        a < modulus(),
    ensures
        fr_mul(a, 1) == a,
        fr_mul(1, a) == a,
        fr_add(a, 0) == a,
        fr_add(0, a) == a,
        fr_mul(a, 0) == 0,
        fr_mul(0, a) == 0,
{
    lemma_small_mod(a, modulus());
    assert(a * 1 == a && 1 * a == a && a * 0 == 0 && 0 * a == 0) by (nonlinear_arith);
}

/// The power zero is one.
pub proof fn lemma_pow_zero(a: nat)
    ensures
        fr_pow(a, 0) == 1,
{
    lemma_pow0(a as int);
}

/// The power one of a reduced number is the number.
pub proof fn lemma_pow_one(a: nat)
    requires
        a < modulus(),
    ensures
        fr_pow(a, 1) == a,
{
    lemma_pow1(a as int);
    lemma_small_mod(a, modulus());
}

/// Powers add their exponents.
pub proof fn lemma_pow_sum(a: nat, e1: nat, e2: nat)
    ensures
        fr_pow(a, e1 + e2) == fr_mul(fr_pow(a, e1), fr_pow(a, e2)),
{
    lemma_pow_adds(a as int, e1, e2);
    lemma_pow_congruent(a, e1);
    lemma_pow_congruent(a, e2);
    lemma_pow_congruent(a, e1 + e2);
    lemma_mul_congruent(fr_pow(a, e1), fr_pow(a, e2));
    lemma_congruent_mul(
        fr_pow(a, e1) as int,
        pow(a as int, e1),
        fr_pow(a, e2) as int,
        pow(a as int, e2),
    );
    lemma_congruent_reduced(fr_pow(a, e1 + e2), fr_mul(fr_pow(a, e1), fr_pow(a, e2)));
}

/// The next power is the power times the base.
pub proof fn lemma_pow_step(a: nat, e: nat)
    requires
        a < modulus(),
    ensures
        fr_pow(a, e + 1) == fr_mul(fr_pow(a, e), a),
{
    lemma_pow_sum(a, e, 1);
    lemma_pow_one(a);
}

/// In a product of three, the first two factors may change places.
pub proof fn lemma_mul_swap(a: nat, b: nat, c: nat)
    ensures
        fr_mul(a, fr_mul(b, c)) == fr_mul(b, fr_mul(a, c)),
{
    lemma_mul_associates(a, b, c);
    lemma_mul_commutes(a, b);
    lemma_mul_associates(b, a, c);
}

/// In a product of two products, the inner factors may change places.
pub proof fn lemma_mul_interchange(a: nat, b: nat, c: nat, d: nat)
    ensures
        fr_mul(fr_mul(a, b), fr_mul(c, d)) == fr_mul(fr_mul(a, c), fr_mul(b, d)),
{
    lemma_mul_associates(a, b, fr_mul(c, d));
    lemma_mul_swap(b, c, d);
    lemma_mul_associates(a, c, fr_mul(b, d));
}

/// The powers of a scalar and of its inverse are inverse to each other.
pub proof fn lemma_inverse_powers(r: nat, r_inv: nat, i: nat)
    requires
        r < modulus(),
        is_fr_inverse(r, r_inv),
    ensures
        fr_mul(fr_pow(r, i), fr_pow(r_inv, i)) == 1,
    decreases i,
{
    if i == 0 {
        lemma_pow_zero(r);
        lemma_pow_zero(r_inv);
        lemma_identities(1);
    } else {
        let j = (i - 1) as nat;
        lemma_inverse_powers(r, r_inv, j);
        lemma_pow_step(r, j);
        lemma_pow_step(r_inv, j);
        lemma_mul_interchange(fr_pow(r, j), r, fr_pow(r_inv, j), r_inv);
        lemma_identities(1);
    }
}

} // verus!
