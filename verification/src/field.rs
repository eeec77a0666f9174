//! The scalar field of BLS12-381.
//!
//! A scalar is held as the four 64-bit limbs of its canonical value, least significant first.
//! Its view is that value, a natural number below [`modulus`]. The arithmetic itself is done by
//! `blstrs::Scalar`; the contracts state the result as arithmetic modulo [`modulus`].
use blstrs::{Scalar, ScalarRepr};
use fff::{Field, PrimeField};
use vstd::arithmetic::power::pow;
use vstd::prelude::*;

verus! {

/// The order of the scalar field, a 255-bit prime.
pub open spec fn modulus() -> nat {
    0x73eda753299d7d483339d80809a1d80553bda402fffe5bfeffffffff00000001nat
}

/// Two to the power 64: the radix of the limbs.
pub open spec fn radix() -> nat {
    0x1_0000_0000_0000_0000nat
}

/// The number that four limbs stand for, least significant limb first.
pub open spec fn limbs_value(l: Seq<u64>) -> nat {
    (l[0] as nat) + (l[1] as nat) * radix() + (l[2] as nat) * radix() * radix() + (l[3] as nat)
        * radix() * radix() * radix()
}

/// Limb `j` of the number `v`.
pub open spec fn limb_of(v: nat, j: int) -> u64 {
    if j == 0 {
        (v % radix()) as u64
    } else if j == 1 {
        ((v / radix()) % radix()) as u64
    } else if j == 2 {
        ((v / (radix() * radix())) % radix()) as u64
    } else {
        ((v / (radix() * radix() * radix())) % radix()) as u64
    }
}

/// Byte `i` of `x`, counted from the least significant byte.
pub open spec fn le_byte(x: u64, i: int) -> u8 {
    ((x >> ((8 * i) as u64)) & 0xff) as u8
}

/// The 32 bytes that encode the scalar `v`: its limbs in turn, each least significant byte
/// first.
pub open spec fn fr_encoding(v: nat) -> Seq<u8> {
    Seq::new(32, |k: int| le_byte(limb_of(v, k / 8), k % 8))
}

/// Sum in the field.
pub open spec fn fr_add(a: nat, b: nat) -> nat {
    (a + b) % modulus()
}

/// Additive inverse in the field.
pub open spec fn fr_neg(a: nat) -> nat {
    ((modulus() - a % modulus()) % (modulus() as int)) as nat
}

/// Difference in the field.
pub open spec fn fr_sub(a: nat, b: nat) -> nat {
    fr_add(a, fr_neg(b))
}

/// Product in the field.
pub open spec fn fr_mul(a: nat, b: nat) -> nat {
    (a * b) % modulus()
}

/// `a` raised to `e` in the field.
pub open spec fn fr_pow(a: nat, e: nat) -> nat {
    (pow(a as int, e) % (modulus() as int)) as nat
}

/// Whether `x` is a multiplicative inverse of `a` in the field.
pub open spec fn is_fr_inverse(a: nat, x: nat) -> bool {
    x < modulus() && (a * x) % modulus() == 1
}

/// The multiplicative inverse of `a` in the field, where `a` has one.
pub open spec fn fr_inverse(a: nat) -> nat {
    choose|x: nat| is_fr_inverse(a, x)
}

/// An element of the scalar field.
#[derive(Clone, Copy, Debug, PartialEq, Eq)]
pub struct Fr {
    pub(crate) limbs: [u64; 4],
}

impl View for Fr {
    type V = nat;

    closed spec fn view(&self) -> nat {
        limbs_value(self.limbs@)
    }
}

/// The values of a sequence of scalars.
pub open spec fn fr_values(s: Seq<Fr>) -> Seq<nat> {
    Seq::new(s.len(), |i: int| s[i]@)
}

/// Whether the limbs `l` stand for a number below the modulus.
fn below_modulus(l: &[u64; 4]) -> (r: bool)
    ensures
        r == (limbs_value(l@) < modulus()),
{
    if l[3] != 0x73eda753299d7d48 {
        l[3] < 0x73eda753299d7d48
    } else if l[2] != 0x3339d80809a1d805 {
        l[2] < 0x3339d80809a1d805
    } else if l[1] != 0x53bda402fffe5bfe {
        l[1] < 0x53bda402fffe5bfe
    } else {
        l[0] < 0xffffffff00000001
    }
}

/// The limbs of a number are the limbs it was built from.
pub proof fn lemma_limbs_of_value(l: Seq<u64>)
    requires
        l.len() == 4,
    ensures
        forall|j: int| 0 <= j < 4 ==> limb_of(limbs_value(l), j) == l[j],
{
    let r = radix() as int;
    let v = limbs_value(l) as int;
    let (l0, l1, l2, l3) = (l[0] as int, l[1] as int, l[2] as int, l[3] as int);
    let h1 = l1 + l2 * r + l3 * r * r;
    let h2 = l2 + l3 * r;
    assert(v == l0 + h1 * r) by (nonlinear_arith)
        requires
            v == l0 + l1 * r + l2 * r * r + l3 * r * r * r,
            h1 == l1 + l2 * r + l3 * r * r,
    ;
    assert(h1 == l1 + h2 * r) by (nonlinear_arith)
        requires
            h1 == l1 + l2 * r + l3 * r * r,
            h2 == l2 + l3 * r,
    ;
    vstd::arithmetic::div_mod::lemma_fundamental_div_mod_converse(v, r, h1, l0);
    vstd::arithmetic::div_mod::lemma_fundamental_div_mod_converse(h1, r, h2, l1);
    vstd::arithmetic::div_mod::lemma_fundamental_div_mod_converse(h2, r, l3, l2);
    assert(h2 >= 0 && h1 >= 0) by (nonlinear_arith)
        requires
            h1 == l1 + h2 * r,
            h2 == l2 + l3 * r,
            l1 >= 0,
            l2 >= 0,
            l3 >= 0,
            r > 0,
    ;
    vstd::arithmetic::div_mod::lemma_div_denominator(v, r, r);
    vstd::arithmetic::div_mod::lemma_div_denominator(v, r * r, r);
    assert(v / (r * r) == h2);
    assert(r * r * r == (r * r) * r) by (nonlinear_arith);
    assert(v / (r * r * r) == l3);
    vstd::arithmetic::div_mod::lemma_small_mod(l3 as nat, r as nat);
    assert(limb_of(limbs_value(l), 0) == l[0]);
    assert(limb_of(limbs_value(l), 1) == l[1]);
    assert(limb_of(limbs_value(l), 2) == l[2]);
    assert(limb_of(limbs_value(l), 3) == l[3]);
}

impl Fr {
    /// Every scalar is reduced: its value is below the modulus.
    #[verifier::type_invariant]
    pub open spec fn reduced(self) -> bool {
        self@ < modulus()
    }

    /// The additive identity.
    pub fn zero() -> (r: Fr)
        ensures
            r@ == 0,
    {
        Fr { limbs: [0, 0, 0, 0] }
    }

    /// The multiplicative identity.
    pub fn one() -> (r: Fr)
        ensures
            r@ == 1,
    {
        Fr { limbs: [1, 0, 0, 0] }
    }

    /// The scalar with the value `x`.
    pub fn from_u64(x: u64) -> (r: Fr)
        ensures
            r@ == x,
    {
        Fr { limbs: [x, 0, 0, 0] }
    }

    /// The scalar whose value is `low + high * 2^64`.
    pub fn from_u128_parts(low: u64, high: u64) -> (r: Fr)
        ensures
            r@ == low + high * radix(),
    {
        Fr { limbs: [low, high, 0, 0] }
    }

    /// The scalar with the given limbs, least significant first, if they stand for a number
    /// below the modulus.
    pub fn from_limbs(limbs: [u64; 4]) -> (r: Option<Fr>)
        ensures
            match r {
                Some(x) => x@ == limbs_value(limbs@) && limbs_value(limbs@) < modulus(),
                None => limbs_value(limbs@) >= modulus(),
            },
    {
        if below_modulus(&limbs) {
            Some(Fr { limbs })
        } else {
            None
        }
    }

    /// The limbs of the scalar's value, least significant first.
    pub fn to_limbs(&self) -> (r: [u64; 4])
        ensures
            limbs_value(r@) == self@,
            self@ < modulus(),
            forall|j: int| 0 <= j < 4 ==> r@[j] == limb_of(self@, j),
    {
        proof {
            use_type_invariant(self);
            lemma_limbs_of_value(self.limbs@);
        }
        self.limbs
    }

    /// Appends the 32 bytes that encode the scalar to `out`.
    pub fn write_to(&self, out: &mut Vec<u8>)
        ensures
            final(out)@ == old(out)@ + fr_encoding(self@),
    {
        let ghost before = out@;
        let limbs = self.to_limbs();
        let mut k: usize = 0;
        while k < 32
            invariant
                k <= 32,
                limbs@.len() == 4,
                forall|j: int| 0 <= j < 4 ==> limbs@[j] == limb_of(self@, j),
                out@ == before + fr_encoding(self@).take(k as int),
            decreases 32 - k,
        {
            let limb = limbs[k / 8];
            let shift: u64 = 8 * ((k % 8) as u64);
            let b: u64 = (limb >> shift) & 0xff;
            assert(b < 256) by (bit_vector)
                requires
                    b == (limb >> shift) & 0xff,
            ;
            out.push(b as u8);
            proof {
                assert(fr_encoding(self@).take(k as int + 1) =~= fr_encoding(self@).take(
                    k as int,
                ).push(fr_encoding(self@)[k as int]));
            }
            k = k + 1;
        }
        proof {
            assert(fr_encoding(self@).take(32) =~= fr_encoding(self@));
        }
    }

    /// Whether the scalar is zero.
    pub fn is_zero(&self) -> (r: bool)
        ensures
            r == (self@ == 0),
    {
        self.limbs[0] == 0 && self.limbs[1] == 0 && self.limbs[2] == 0 && self.limbs[3] == 0
    }

    /// Whether two scalars have the same value.
    pub fn is_equal(&self, other: &Fr) -> (r: bool)
        ensures
            r == (self@ == other@),
    {
        proof {
            lemma_limbs_of_value(self.limbs@);
            lemma_limbs_of_value(other.limbs@);
        }
        self.limbs[0] == other.limbs[0] && self.limbs[1] == other.limbs[1] && self.limbs[2]
            == other.limbs[2] && self.limbs[3] == other.limbs[3]
    }

    /// Sum in the field.
    pub fn add(&self, other: &Fr) -> (r: Fr)
        ensures
            r@ == fr_add(self@, other@),
    {
        proof {
            use_type_invariant(self);
            use_type_invariant(other);
            lemma_mod_bound((self@ + other@) as int);
        }
        Fr { limbs: scalar_add(&self.limbs, &other.limbs) }
    }

    /// Difference in the field.
    pub fn sub(&self, other: &Fr) -> (r: Fr)
        ensures
            r@ == fr_sub(self@, other@),
    {
        let minus = other.neg();
        self.add(&minus)
    }

    /// Additive inverse in the field.
    pub fn neg(&self) -> (r: Fr)
        ensures
            r@ == fr_neg(self@),
    {
        proof {
            use_type_invariant(self);
            lemma_mod_bound(modulus() - self@ % modulus());
        }
        Fr { limbs: scalar_negate(&self.limbs) }
    }

    /// Product in the field.
    pub fn mul(&self, other: &Fr) -> (r: Fr)
        ensures
            r@ == fr_mul(self@, other@),
    {
        proof {
            use_type_invariant(self);
            use_type_invariant(other);
            lemma_mod_bound((self@ * other@) as int);
        }
        Fr { limbs: scalar_mul(&self.limbs, &other.limbs) }
    }

    /// The scalar raised to the power `e`.
    pub fn pow(&self, e: u64) -> (r: Fr)
        ensures
            r@ == fr_pow(self@, e as nat),
    {
        proof {
            use_type_invariant(self);
            lemma_mod_bound(pow(self@ as int, e as nat));
        }
        Fr { limbs: scalar_pow(&self.limbs, e) }
    }

    /// The multiplicative inverse, which every scalar but zero has.
    pub fn inverse(&self) -> (r: Option<Fr>)
        ensures
            match r {
                Some(x) => self@ != 0 && x@ == fr_inverse(self@) && is_fr_inverse(self@, x@),
                None => self@ == 0,
            },
    {
        proof {
            use_type_invariant(self);
        }
        match scalar_inverse(&self.limbs) {
            Some(limbs) => {
                proof {
                    crate::field_laws::lemma_inverse_is_unique(
                        self@,
                        limbs_value(limbs@),
                        fr_inverse(self@),
                    );
                }
                Some(Fr { limbs })
            },
            None => None,
        }
    }
}

/// A remainder by the modulus is below the modulus and not negative.
pub proof fn lemma_mod_bound(x: int)
    ensures
        0 <= x % (modulus() as int) < modulus(),
{
}

/// `Field::add_assign` of `blstrs::Scalar`: the sum of the two scalars, reduced by the field's
/// order. The limbs go in through `PrimeField::from_repr` and come out through
/// `PrimeField::into_repr`, which gives the canonical value.
#[verifier::external_body]
fn scalar_add(a: &[u64; 4], b: &[u64; 4]) -> (r: [u64; 4])
    requires
        limbs_value(a@) < modulus(),
        limbs_value(b@) < modulus(),
    ensures
        limbs_value(r@) == (limbs_value(a@) + limbs_value(b@)) % modulus(),
{
    let mut x = Scalar::from_repr(ScalarRepr(*a)).unwrap();
    x.add_assign(&Scalar::from_repr(ScalarRepr(*b)).unwrap());
    x.into_repr().0
}

/// `Field::negate` of `blstrs::Scalar`: the field's order less the scalar, and zero for zero.
#[verifier::external_body]
fn scalar_negate(a: &[u64; 4]) -> (r: [u64; 4])
    requires
        limbs_value(a@) < modulus(),
    ensures
        limbs_value(r@) == fr_neg(limbs_value(a@)),
{
    let mut x = Scalar::from_repr(ScalarRepr(*a)).unwrap();
    x.negate();
    x.into_repr().0
}

/// `Field::mul_assign` of `blstrs::Scalar`: the product of the two scalars, reduced by the
/// field's order.
#[verifier::external_body]
fn scalar_mul(a: &[u64; 4], b: &[u64; 4]) -> (r: [u64; 4])
    requires
        limbs_value(a@) < modulus(),
        limbs_value(b@) < modulus(),
    ensures
        limbs_value(r@) == (limbs_value(a@) * limbs_value(b@)) % modulus(),
{
    let mut x = Scalar::from_repr(ScalarRepr(*a)).unwrap();
    x.mul_assign(&Scalar::from_repr(ScalarRepr(*b)).unwrap());
    x.into_repr().0
}

/// `Field::pow` of `fff`, on a `blstrs::Scalar` with a one-limb exponent: square and multiply
/// over the bits of `e`, so the power of the scalar reduced by the field's order.
#[verifier::external_body]
fn scalar_pow(a: &[u64; 4], e: u64) -> (r: [u64; 4])
    requires
        limbs_value(a@) < modulus(),
    ensures
        limbs_value(r@) == pow(limbs_value(a@) as int, e as nat) % (modulus() as int),
{
    Scalar::from_repr(ScalarRepr(*a)).unwrap().pow([e]).into_repr().0
}

/// `Field::inverse` of `blstrs::Scalar`: `None` for zero, else a scalar whose product with
/// the argument is one.
#[verifier::external_body]
fn scalar_inverse(a: &[u64; 4]) -> (r: Option<[u64; 4]>)
    requires
        limbs_value(a@) < modulus(),
    ensures
        match r {
            Some(x) => limbs_value(a@) != 0 && is_fr_inverse(limbs_value(a@), limbs_value(x@)),
            None => limbs_value(a@) == 0,
        },
{
    Scalar::from_repr(ScalarRepr(*a)).unwrap().inverse().map(|x| x.into_repr().0)
}

} // verus!
