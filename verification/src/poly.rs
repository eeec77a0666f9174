//! The polynomial of a challenge transcript.
//!
//! The commitment keys that a recursion ends with are evaluations of
//! `f(X) = (1 + t[0] (rX)^1) (1 + t[1] (rX)^2) (1 + t[2] (rX)^4) ...`, where `t` holds the
//! recursion's challenges, last first, and `r` is a shift. This module evaluates `f` at a point
//! from that product, lists its coefficients, and divides it by `X - z`.
use crate::field::{fr_add, fr_mul, fr_pow, fr_values, modulus, Fr};
use vstd::prelude::*;

verus! {

/// `x` squared `i` times: `x^(2^i)` in the field.
pub open spec fn squarings(x: nat, i: nat) -> nat
    decreases i,
{
    if i == 0 {
        x
    } else {
        fr_mul(squarings(x, (i - 1) as nat), squarings(x, (i - 1) as nat))
    }
}

/// The value at `z` of the transcript's polynomial with the shift `r`, from its product form.
pub open spec fn evaluation_product(t: Seq<nat>, z: nat, r: nat) -> nat
    decreases t.len(),
{
    if t.len() == 0 {
        1
    } else {
        fr_mul(
            evaluation_product(t.drop_last(), z, r),
            fr_add(1, fr_mul(t.last(), squarings(fr_mul(z, r), (t.len() - 1) as nat))),
        )
    }
}

/// A list of coefficients, each multiplied by `k`.
pub open spec fn scaled(c: Seq<nat>, k: nat) -> Seq<nat> {
    Seq::new(c.len(), |j: int| fr_mul(c[j], k))
}

/// The coefficients of the transcript's polynomial with the shift `r`, lowest degree first.
/// Each challenge doubles the list: the second half is the first, multiplied by the challenge
/// and by `r^(2^i)`.
pub open spec fn coefficients(t: Seq<nat>, r: nat) -> Seq<nat>
    decreases t.len(),
{
    if t.len() == 0 {
        seq![1nat]
    } else {
        let c = coefficients(t.drop_last(), r);
        c + scaled(c, fr_mul(t.last(), squarings(r, (t.len() - 1) as nat)))
    }
}

/// The value at `z` of the polynomial with the coefficients `c`, lowest degree first.
pub open spec fn poly_eval(c: Seq<nat>, z: nat) -> nat
    decreases c.len(),
{
    if c.len() == 0 {
        0
    } else {
        fr_add(poly_eval(c.drop_last(), z), fr_mul(c.last(), fr_pow(z, (c.len() - 1) as nat)))
    }
}

/// Coefficient `i` of the quotient of the polynomial `f` by `X - z`: each is the next higher
/// coefficient of `f` plus `z` times the next higher coefficient of the quotient.
pub open spec fn quotient_coefficient(f: Seq<nat>, z: nat, i: int) -> nat
    decreases f.len() - i,
{
    if i < 0 || i + 1 >= f.len() {
        0
    } else {
        fr_add(f[i + 1], fr_mul(z, quotient_coefficient(f, z, i + 1)))
    }
}

/// The quotient of the polynomial `f` by `X - z`. It is one coefficient shorter than `f`, and
/// does not depend on the constant coefficient of `f`.
pub open spec fn quotient(f: Seq<nat>, z: nat) -> Seq<nat> {
    Seq::new(
        if f.len() == 0 {
            0
        } else {
            (f.len() - 1) as nat
        },
        |i: int| quotient_coefficient(f, z, i),
    )
}

/// The value at `z` of the transcript's polynomial with the shift `r_shift`, computed from
/// its product form by repeated squaring of `z * r_shift`. `transcript` holds the challenges,
/// last first.
pub fn polynomial_evaluation_product_form_from_transcript(
    transcript: &Vec<Fr>,
    z: &Fr,
    r_shift: &Fr,
) -> (res: Fr)
    ensures
        res@ == evaluation_product(fr_values(transcript@), z@, r_shift@),
{
    let ghost t = fr_values(transcript@);
    let mut power_zr = z.mul(r_shift);
    let mut res = Fr::one();
    let mut i: usize = 0;
    proof {
        assert(t.take(0).len() == 0);
    }
    while i < transcript.len()
        invariant
            i <= transcript.len(),
            t == fr_values(transcript@),
            power_zr@ == squarings(fr_mul(z@, r_shift@), i as nat),
            res@ == evaluation_product(t.take(i as int), z@, r_shift@),
        decreases transcript.len() - i,
    {
        let term = Fr::one().add(&transcript[i].mul(&power_zr));
        proof {
            assert(t.take(i + 1).drop_last() =~= t.take(i as int));
            assert(t.take(i + 1).last() == transcript@[i as int]@);
        }
        res = res.mul(&term);
        power_zr = power_zr.mul(&power_zr);
        i = i + 1;
    }
    proof {
        assert(t.take(transcript.len() as int) =~= t);
    }
    res
}

/// The coefficients of the transcript's polynomial with the shift `r_shift`, lowest degree
/// first: twice as many for each challenge. `transcript` holds the challenges, last first.
pub fn polynomial_coefficients_from_transcript(transcript: &Vec<Fr>, r_shift: &Fr) -> (res: Vec<
    Fr,
>)
    ensures
        fr_values(res@) == coefficients(fr_values(transcript@), r_shift@),
{
    let ghost t = fr_values(transcript@);
    let mut coeffs: Vec<Fr> = Vec::new();
    coeffs.push(Fr::one());
    let mut power_2_r = *r_shift;
    let mut i: usize = 0;
    proof {
        assert(t.take(0).len() == 0);
        assert(fr_values(coeffs@) =~= seq![1nat]);
    }
    while i < transcript.len()
        invariant
            i <= transcript.len(),
            t == fr_values(transcript@),
            power_2_r@ == squarings(r_shift@, i as nat),
            fr_values(coeffs@) == coefficients(t.take(i as int), r_shift@),
        decreases transcript.len() - i,
    {
        let n = coeffs.len();
        let factor = transcript[i].mul(&power_2_r);
        let ghost first = fr_values(coeffs@);
        let mut j: usize = 0;
        while j < n
            invariant
                j <= n,
                n == first.len(),
                coeffs@.len() == n + j,
                fr_values(coeffs@) == first + scaled(first, factor@).take(j as int),
            decreases n - j,
        {
            let ghost before = fr_values(coeffs@);
            let c = coeffs[j].mul(&factor);
            proof {
                assert(coeffs@[j as int]@ == before[j as int]);
                assert(before[j as int] == first[j as int]);
            }
            coeffs.push(c);
            proof {
                assert(fr_values(coeffs@) =~= before.push(c@));
                assert(scaled(first, factor@).take(j + 1) =~= scaled(first, factor@).take(
                    j as int,
                ).push(c@));
                assert(fr_values(coeffs@) =~= first + scaled(first, factor@).take(j + 1));
            }
            j = j + 1;
        }
        proof {
            assert(scaled(first, factor@).take(n as int) =~= scaled(first, factor@));
            assert(t.take(i + 1).drop_last() =~= t.take(i as int));
            assert(t.take(i + 1).last() == transcript@[i as int]@);
        }
        power_2_r = power_2_r.mul(&power_2_r);
        i = i + 1;
    }
    proof {
        assert(t.take(transcript.len() as int) =~= t);
    }
    coeffs
}

/// The value at `z` of the polynomial with the coefficients `coeffs`, lowest degree first.
pub fn evaluate(coeffs: &Vec<Fr>, z: &Fr) -> (res: Fr)
    ensures
        res@ == poly_eval(fr_values(coeffs@), z@),
{
    let ghost c = fr_values(coeffs@);
    let mut res = Fr::zero();
    let mut power = Fr::one();
    let mut i: usize = 0;
    proof {
        use_type_invariant(z);
        assert(c.take(0).len() == 0);
        crate::field_laws::lemma_pow_zero(z@);
    }
    while i < coeffs.len()
        invariant
            i <= coeffs.len(),
            z@ < modulus(),
            c == fr_values(coeffs@),
            power@ == fr_pow(z@, i as nat),
            res@ == poly_eval(c.take(i as int), z@),
        decreases coeffs.len() - i,
    {
        proof {
            assert(c.take(i + 1).drop_last() =~= c.take(i as int));
            assert(c.take(i + 1).last() == coeffs@[i as int]@);
            crate::field_laws::lemma_pow_step(z@, i as nat);
        }
        res = res.add(&coeffs[i].mul(&power));
        power = power.mul(z);
        i = i + 1;
    }
    proof {
        assert(c.take(coeffs.len() as int) =~= c);
    }
    res
}

/// The quotient of the polynomial `coeffs` by `X - z`, lowest degree first. The remainder of
/// that division is the polynomial's value at `z`.
pub fn divide_by_linear(coeffs: &Vec<Fr>, z: &Fr) -> (res: Vec<Fr>)
    ensures
        fr_values(res@) == quotient(fr_values(coeffs@), z@),
{
    let ghost f = fr_values(coeffs@);
    let n = coeffs.len();
    let mut reversed: Vec<Fr> = Vec::new();
    if n <= 1 {
        proof {
            assert(fr_values(reversed@) =~= quotient(f, z@));
        }
        return reversed;
    }
    // from the highest coefficient of the quotient down to the lowest
    let mut carry = Fr::zero();
    let mut i: usize = n - 1;
    while i > 0
        invariant
            i < n,
            n == coeffs.len(),
            f == fr_values(coeffs@),
            carry@ == quotient_coefficient(f, z@, i as int),
            reversed@.len() == n - 1 - i,
            forall|k: int|
                0 <= k < reversed@.len() ==> #[trigger] reversed@[k]@ == quotient_coefficient(
                    f,
                    z@,
                    n - 2 - k,
                ),
        decreases i,
    {
        let next = coeffs[i].add(&z.mul(&carry));
        proof {
            assert(f[i as int] == coeffs@[i as int]@);
            assert(next@ == quotient_coefficient(f, z@, i - 1));
        }
        reversed.push(next);
        carry = next;
        i = i - 1;
    }
    let mut res: Vec<Fr> = Vec::new();
    let mut k: usize = reversed.len();
    while k > 0
        invariant
            k <= reversed@.len(),
            reversed@.len() == n - 1,
            res@.len() == n - 1 - k,
            forall|j: int|
                0 <= j < reversed@.len() ==> #[trigger] reversed@[j]@ == quotient_coefficient(
                    f,
                    z@,
                    n - 2 - j,
                ),
            forall|j: int|
                0 <= j < res@.len() ==> #[trigger] res@[j]@ == quotient_coefficient(f, z@, j),
        decreases k,
    {
        k = k - 1;
        res.push(reversed[k]);
    }
    proof {
        assert(fr_values(res@) =~= quotient(f, z@));
    }
    res
}

} // verus!
