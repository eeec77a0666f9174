//! The groups of BLS12-381 and its pairing.
//!
//! A point of G1 or G2 is held as its compressed encoding, an element of the pairing's target
//! field as the 576 bytes of its twelve base-field coefficients. The view of each is that byte
//! sequence. All group and field work is done by `blstrs`; what an operation returns is named
//! here by a function on encodings, and the contracts of the library speak of those names.
use crate::field::{limbs_value, modulus, Fr};
use blstrs::{Bls12, Engine, Fp12, G1Affine, G2Affine, PairingCurveAffine, ScalarRepr};
use fff::Field;
use groupy::{CurveAffine, CurveProjective};
use vstd::prelude::*;

verus! {

/// The canonical encoding of the G1 point that 48 bytes decode to, if they decode to one.
pub uninterp spec fn g1_decode(bytes: Seq<u8>) -> Option<Seq<u8>>;

/// The encoding of the sum of two G1 points.
pub uninterp spec fn g1_sum(a: Seq<u8>, b: Seq<u8>) -> Seq<u8>;

/// The encoding of the negation of a G1 point.
pub uninterp spec fn g1_negation(a: Seq<u8>) -> Seq<u8>;

/// The encoding of a G1 point multiplied by a scalar.
pub uninterp spec fn g1_scaled(a: Seq<u8>, s: nat) -> Seq<u8>;

/// The canonical encoding of the G2 point that 96 bytes decode to, if they decode to one.
pub uninterp spec fn g2_decode(bytes: Seq<u8>) -> Option<Seq<u8>>;

/// The encoding of the sum of two G2 points.
pub uninterp spec fn g2_sum(a: Seq<u8>, b: Seq<u8>) -> Seq<u8>;

/// The encoding of the negation of a G2 point.
pub uninterp spec fn g2_negation(a: Seq<u8>) -> Seq<u8>;

/// The encoding of a G2 point multiplied by a scalar.
pub uninterp spec fn g2_scaled(a: Seq<u8>, s: nat) -> Seq<u8>;

/// The encoding of the product of two elements of the target field.
pub uninterp spec fn fqk_product(a: Seq<u8>, b: Seq<u8>) -> Seq<u8>;

/// The encoding of the inverse of an element of the target field, if it has one.
pub uninterp spec fn fqk_inverse(a: Seq<u8>) -> Option<Seq<u8>>;

/// The encoding of an element of the target field raised to a scalar.
pub uninterp spec fn fqk_power(a: Seq<u8>, s: nat) -> Seq<u8>;

/// The encoding of the Miller loop over the pairs of two equally long lists of points.
pub uninterp spec fn miller_loop(ps: Seq<Seq<u8>>, qs: Seq<Seq<u8>>) -> Seq<u8>;

/// The encoding of the final exponentiation of an element of the target field.
pub uninterp spec fn final_exp(a: Seq<u8>) -> Seq<u8>;

/// Whether 48 bytes are the canonical encoding of a G1 point.
pub open spec fn g1_valid(bytes: Seq<u8>) -> bool {
    bytes.len() == 48 && g1_decode(bytes) == Some(bytes)
}

/// Whether 96 bytes are the canonical encoding of a G2 point.
pub open spec fn g2_valid(bytes: Seq<u8>) -> bool {
    bytes.len() == 96 && g2_decode(bytes) == Some(bytes)
}

/// The order of the base field of the curve, a 381-bit prime.
pub open spec fn base_modulus() -> nat {
    0x1a0111ea397fe69a4b1ba7b6434bacd764774b84f38512bf6730d2a0f6b0f6241eabfffeb153ffffb9feffffffffaaabnat
}

/// The 64-bit number that the eight bytes of `b` from `at` on stand for, least significant
/// byte first.
pub open spec fn le_limb(b: Seq<u8>, at: int) -> nat {
    (b[at] as nat) + (b[at + 1] as nat) * 0x100 + (b[at + 2] as nat) * 0x1_0000 + (b[at
        + 3] as nat) * 0x100_0000 + (b[at + 4] as nat) * 0x1_0000_0000 + (b[at + 5] as nat)
        * 0x100_0000_0000 + (b[at + 6] as nat) * 0x1_0000_0000_0000 + (b[at + 7] as nat)
        * 0x100_0000_0000_0000
}

/// The number that the 48 bytes of `b` from `at` on stand for: six limbs of 64 bits, least
/// significant first.
pub open spec fn coefficient(b: Seq<u8>, at: int) -> nat {
    let radix = 0x1_0000_0000_0000_0000nat;
    le_limb(b, at) + radix * (le_limb(b, at + 8) + radix * (le_limb(b, at + 16) + radix * (
    le_limb(b, at + 24) + radix * (le_limb(b, at + 32) + radix * le_limb(b, at + 40)))))
}

/// Whether coefficient `k` of the twelve that 576 bytes hold is an element of the base field.
pub open spec fn coefficient_reduced(b: Seq<u8>, k: int) -> bool {
    coefficient(b, 48 * k) < base_modulus()
}

/// Whether 576 bytes are the encoding of an element of the target field: each of the twelve
/// coefficients that they hold is below the order of the base field.
pub open spec fn fqk_valid(bytes: Seq<u8>) -> bool {
    bytes.len() == 576 && forall|k: int| 0 <= k < 12 ==> coefficient_reduced(bytes, k)
}

/// The encoding of the point at infinity in `len` bytes: the flags for "compressed" and
/// "infinity" in the first byte, and zeros.
pub open spec fn infinity_encoding(len: nat) -> Seq<u8> {
    Seq::new(len, |i: int| if i == 0 { 0xc0u8 } else { 0u8 })
}

/// The encoding of the target field's one: the first coefficient is one, the others zero.
pub open spec fn fqk_one() -> Seq<u8> {
    Seq::new(576, |i: int| if i == 0 { 1u8 } else { 0u8 })
}

/// The pairing of a G1 point with a G2 point.
pub open spec fn pairing(p: Seq<u8>, q: Seq<u8>) -> Seq<u8> {
    final_exp(miller_loop(seq![p], seq![q]))
}

/// The product of the pairings of the entries of two equally long, non-empty lists of points.
pub open spec fn pairing_fold(ps: Seq<Seq<u8>>, qs: Seq<Seq<u8>>) -> Seq<u8>
    decreases ps.len(),
{
    if ps.len() <= 1 {
        pairing(ps[0], qs[0])
    } else {
        fqk_product(pairing_fold(ps.drop_last(), qs.drop_last()), pairing(ps.last(), qs.last()))
    }
}

/// Bilinearity, as it shows on a multiple `r` of the G1 point `p` by the scalar `s`: in a
/// pairing the scalar may move to the other side, `e(s p, q) = e(p, s q)`.
pub open spec fn scalar_crosses(p: Seq<u8>, s: nat, r: Seq<u8>) -> bool {
    forall|q: Seq<u8>| g2_valid(q) ==> #[trigger] pairing(r, q) == pairing(p, g2_scaled(q, s))
}

/// The order of the group, as it shows on a multiple `r` of the G2 point `q` by the scalar
/// `s`: a scalar `u` of the field that is inverse to `s` there takes `r` back to `q`.
pub open spec fn scalar_undone(q: Seq<u8>, s: nat, r: Seq<u8>) -> bool {
    forall|u: nat|
        u < modulus() && (u * s) % modulus() == 1 ==> #[trigger] g2_scaled(r, u) == q
}

/// A point of the group G1.
#[derive(Clone, Copy, Debug, PartialEq, Eq)]
pub struct G1 {
    pub(crate) bytes: [u8; 48],
}

/// A point of the group G2.
#[derive(Clone, Copy, Debug, PartialEq, Eq)]
pub struct G2 {
    pub(crate) bytes: [u8; 96],
}

/// An element of the target field of the pairing: a Miller loop's output, or, after the final
/// exponentiation, an element of the target group.
#[derive(Clone, Copy, Debug, PartialEq, Eq)]
pub struct Fqk {
    pub(crate) bytes: [u8; 576],
}

impl View for G1 {
    type V = Seq<u8>;

    closed spec fn view(&self) -> Seq<u8> {
        self.bytes@
    }
}

impl View for G2 {
    type V = Seq<u8>;

    closed spec fn view(&self) -> Seq<u8> {
        self.bytes@
    }
}

impl View for Fqk {
    type V = Seq<u8>;

    closed spec fn view(&self) -> Seq<u8> {
        self.bytes@
    }
}

/// The encodings of a sequence of G1 points.
pub open spec fn g1_views(s: Seq<G1>) -> Seq<Seq<u8>> {
    Seq::new(s.len(), |i: int| s[i]@)
}

/// The encodings of a sequence of G2 points.
pub open spec fn g2_views(s: Seq<G2>) -> Seq<Seq<u8>> {
    Seq::new(s.len(), |i: int| s[i]@)
}

/// Reads the eight bytes from `at` on as a number, least significant byte first.
fn read_le_limb(bytes: &[u8; 576], at: usize) -> (r: u64)
    requires
        at + 8 <= 576,
    ensures
        r == le_limb(bytes@, at as int),
{
    (bytes[at] as u64) + (bytes[at + 1] as u64) * 0x100 + (bytes[at + 2] as u64) * 0x1_0000 + (
    bytes[at + 3] as u64) * 0x100_0000 + (bytes[at + 4] as u64) * 0x1_0000_0000 + (bytes[at
        + 5] as u64) * 0x100_0000_0000 + (bytes[at + 6] as u64) * 0x1_0000_0000_0000 + (bytes[at
        + 7] as u64) * 0x100_0000_0000_0000
}

/// Whether coefficient `k` of the twelve that the bytes hold is below the order of the base
/// field.
fn coefficient_below_modulus(bytes: &[u8; 576], k: usize) -> (r: bool)
    requires
        k < 12,
    ensures
        r == coefficient_reduced(bytes@, k as int),
{
    let at = 48 * k;
    let l0 = read_le_limb(bytes, at);
    let l1 = read_le_limb(bytes, at + 8);
    let l2 = read_le_limb(bytes, at + 16);
    let l3 = read_le_limb(bytes, at + 24);
    let l4 = read_le_limb(bytes, at + 32);
    let l5 = read_le_limb(bytes, at + 40);
    if l5 != 0x1a0111ea397fe69a {
        l5 < 0x1a0111ea397fe69a
    } else if l4 != 0x4b1ba7b6434bacd7 {
        l4 < 0x4b1ba7b6434bacd7
    } else if l3 != 0x64774b84f38512bf {
        l3 < 0x64774b84f38512bf
    } else if l2 != 0x6730d2a0f6b0f624 {
        l2 < 0x6730d2a0f6b0f624
    } else if l1 != 0x1eabfffeb153ffff {
        l1 < 0x1eabfffeb153ffff
    } else {
        l0 < 0xb9feffffffffaaab
    }
}

/// Whether each of the twelve coefficients that the bytes hold is below the order of the
/// base field.
fn coefficients_reduced(bytes: &[u8; 576]) -> (r: bool)
    ensures
        r == fqk_valid(bytes@),
{
    let mut k: usize = 0;
    while k < 12
        invariant
            k <= 12,
            forall|j: int| 0 <= j < k ==> coefficient_reduced(bytes@, j),
        decreases 12 - k,
    {
        if !coefficient_below_modulus(bytes, k) {
            return false;
        }
        k = k + 1;
    }
    true
}

/// Compares two byte arrays of the same length.
fn same_bytes(a: &[u8], b: &[u8]) -> (r: bool)
    requires
        a.len() == b.len(),
    ensures
        r == (a@ == b@),
{
    let mut i: usize = 0;
    while i < a.len()
        invariant
            i <= a.len(),
            a.len() == b.len(),
            a@.take(i as int) == b@.take(i as int),
        decreases a.len() - i,
    {
        if a[i] != b[i] {
            assert(a@[i as int] != b@[i as int]);
            return false;
        }
        assert(a@.take(i + 1) =~= a@.take(i as int).push(a@[i as int]));
        assert(b@.take(i + 1) =~= b@.take(i as int).push(b@[i as int]));
        i = i + 1;
    }
    assert(a@.take(a.len() as int) =~= a@);
    assert(b@.take(b.len() as int) =~= b@);
    true
}

impl G1 {
    /// A point is held in its canonical encoding.
    #[verifier::type_invariant]
    pub open spec fn well_formed(self) -> bool {
        g1_valid(self@)
    }

    /// The point that 48 bytes decode to, if they decode to a point of the group.
    pub fn from_compressed(bytes: &[u8; 48]) -> (r: Option<G1>)
        ensures
            match r {
                Some(p) => g1_decode(bytes@) == Some(p@) && g1_valid(p@),
                None => g1_decode(bytes@).is_none(),
            },
    {
        match g1_decode_raw(bytes) {
            Some(c) => Some(G1 { bytes: c }),
            None => None,
        }
    }

    /// The canonical encoding of the point.
    pub fn to_compressed(&self) -> (r: [u8; 48])
        ensures
            r@ == self@,
            g1_valid(self@),
    {
        proof {
            use_type_invariant(self);
        }
        self.bytes
    }

    /// The point at infinity, the group's identity.
    pub fn identity() -> (r: G1)
        ensures
            r@ == infinity_encoding(48),
    {
        G1 { bytes: g1_identity_raw() }
    }

    /// Appends the point's encoding to `out`.
    pub fn write_to(&self, out: &mut Vec<u8>)
        ensures
            final(out)@ == old(out)@ + self@,
    {
        out.extend_from_slice(self.bytes.as_slice());
    }

    /// Whether two points are the same.
    pub fn is_equal(&self, other: &G1) -> (r: bool)
        ensures
            r == (self@ == other@),
    {
        same_bytes(self.bytes.as_slice(), other.bytes.as_slice())
    }

    /// The sum of two points.
    pub fn add(&self, other: &G1) -> (r: G1)
        ensures
            r@ == g1_sum(self@, other@),
    {
        proof {
            use_type_invariant(self);
            use_type_invariant(other);
        }
        G1 { bytes: g1_add_raw(&self.bytes, &other.bytes) }
    }

    /// The negation of the point.
    pub fn neg(&self) -> (r: G1)
        ensures
            r@ == g1_negation(self@),
    {
        proof {
            use_type_invariant(self);
        }
        G1 { bytes: g1_negate_raw(&self.bytes) }
    }

    /// The difference of two points: the first plus the negation of the second.
    pub fn sub(&self, other: &G1) -> (r: G1)
        ensures
            r@ == g1_sum(self@, g1_negation(other@)),
    {
        let minus = other.neg();
        self.add(&minus)
    }

    /// The point multiplied by a scalar.
    pub fn scale(&self, s: &Fr) -> (r: G1)
        ensures
            r@ == g1_scaled(self@, s@),
            scalar_crosses(self@, s@, r@),
    {
        proof {
            use_type_invariant(self);
        }
        let limbs = s.to_limbs();
        G1 { bytes: g1_scale_raw(&self.bytes, &limbs) }
    }
}

impl G2 {
    /// A point is held in its canonical encoding.
    #[verifier::type_invariant]
    pub open spec fn well_formed(self) -> bool {
        g2_valid(self@)
    }

    /// The point that 96 bytes decode to, if they decode to a point of the group.
    pub fn from_compressed(bytes: &[u8; 96]) -> (r: Option<G2>)
        ensures
            match r {
                Some(p) => g2_decode(bytes@) == Some(p@) && g2_valid(p@),
                None => g2_decode(bytes@).is_none(),
            },
    {
        match g2_decode_raw(bytes) {
            Some(c) => Some(G2 { bytes: c }),
            None => None,
        }
    }

    /// The canonical encoding of the point.
    pub fn to_compressed(&self) -> (r: [u8; 96])
        ensures
            r@ == self@,
            g2_valid(self@),
    {
        proof {
            use_type_invariant(self);
        }
        self.bytes
    }

    /// The point at infinity, the group's identity.
    pub fn identity() -> (r: G2)
        ensures
            r@ == infinity_encoding(96),
    {
        G2 { bytes: g2_identity_raw() }
    }

    /// Appends the point's encoding to `out`.
    pub fn write_to(&self, out: &mut Vec<u8>)
        ensures
            final(out)@ == old(out)@ + self@,
    {
        out.extend_from_slice(self.bytes.as_slice());
    }

    /// Whether two points are the same.
    pub fn is_equal(&self, other: &G2) -> (r: bool)
        ensures
            r == (self@ == other@),
    {
        same_bytes(self.bytes.as_slice(), other.bytes.as_slice())
    }

    /// The sum of two points.
    pub fn add(&self, other: &G2) -> (r: G2)
        ensures
            r@ == g2_sum(self@, other@),
    {
        proof {
            use_type_invariant(self);
            use_type_invariant(other);
        }
        G2 { bytes: g2_add_raw(&self.bytes, &other.bytes) }
    }

    /// The negation of the point.
    pub fn neg(&self) -> (r: G2)
        ensures
            r@ == g2_negation(self@),
    {
        proof {
            use_type_invariant(self);
        }
        G2 { bytes: g2_negate_raw(&self.bytes) }
    }

    /// The difference of two points: the first plus the negation of the second.
    pub fn sub(&self, other: &G2) -> (r: G2)
        ensures
            r@ == g2_sum(self@, g2_negation(other@)),
    {
        let minus = other.neg();
        self.add(&minus)
    }

    /// The point multiplied by a scalar.
    pub fn scale(&self, s: &Fr) -> (r: G2)
        ensures
            r@ == g2_scaled(self@, s@),
            g2_valid(r@),
            scalar_undone(self@, s@, r@),
    {
        proof {
            use_type_invariant(self);
        }
        let limbs = s.to_limbs();
        G2 { bytes: g2_scale_raw(&self.bytes, &limbs) }
    }
}

impl Fqk {
    /// An element is held in an encoding that decodes.
    #[verifier::type_invariant]
    pub open spec fn well_formed(self) -> bool {
        fqk_valid(self@)
    }

    /// The element that 576 bytes encode, if they encode one.
    pub fn from_bytes(bytes: &[u8; 576]) -> (r: Option<Fqk>)
        ensures
            match r {
                Some(x) => x@ == bytes@ && fqk_valid(bytes@),
                None => !fqk_valid(bytes@),
            },
    {
        if coefficients_reduced(bytes) {
            Some(Fqk { bytes: *bytes })
        } else {
            None
        }
    }

    /// The encoding of the element.
    pub fn to_bytes(&self) -> (r: [u8; 576])
        ensures
            r@ == self@,
            fqk_valid(self@),
    {
        proof {
            use_type_invariant(self);
        }
        self.bytes
    }

    /// The field's one, the identity of the target group.
    pub fn one() -> (r: Fqk)
        ensures
            r@ == fqk_one(),
    {
        Fqk { bytes: fqk_one_raw() }
    }

    /// Appends the element's encoding to `out`.
    pub fn write_to(&self, out: &mut Vec<u8>)
        ensures
            final(out)@ == old(out)@ + self@,
    {
        out.extend_from_slice(self.bytes.as_slice());
    }

    /// Whether two elements are the same.
    pub fn is_equal(&self, other: &Fqk) -> (r: bool)
        ensures
            r == (self@ == other@),
    {
        same_bytes(self.bytes.as_slice(), other.bytes.as_slice())
    }

    /// The product of two elements.
    pub fn mul(&self, other: &Fqk) -> (r: Fqk)
        ensures
            r@ == fqk_product(self@, other@),
    {
        proof {
            use_type_invariant(self);
            use_type_invariant(other);
        }
        Fqk { bytes: fqk_mul_raw(&self.bytes, &other.bytes) }
    }

    /// The inverse of the element, if it has one.
    pub fn inverse(&self) -> (r: Option<Fqk>)
        ensures
            match r {
                Some(x) => fqk_inverse(self@) == Some(x@),
                None => fqk_inverse(self@).is_none(),
            },
    {
        proof {
            use_type_invariant(self);
        }
        match fqk_inverse_raw(&self.bytes) {
            Some(bytes) => Some(Fqk { bytes }),
            None => None,
        }
    }

    /// The element raised to a scalar.
    pub fn pow(&self, s: &Fr) -> (r: Fqk)
        ensures
            r@ == fqk_power(self@, s@),
    {
        proof {
            use_type_invariant(self);
        }
        let limbs = s.to_limbs();
        Fqk { bytes: fqk_pow_raw(&self.bytes, &limbs) }
    }

    /// The final exponentiation of the element, which takes a Miller loop's output into the
    /// target group.
    pub fn final_exponentiation(&self) -> (r: Fqk)
        ensures
            r@ == final_exp(self@),
    {
        proof {
            use_type_invariant(self);
        }
        Fqk { bytes: final_exponentiation_raw(&self.bytes) }
    }
}

/// The Miller loop over the pairs `(ps[i], qs[i])`.
pub fn miller_loop_of(ps: &Vec<G1>, qs: &Vec<G2>) -> (r: Fqk)
    requires
        ps.len() == qs.len(),
    ensures
        r@ == miller_loop(g1_views(ps@), g2_views(qs@)),
        ps@.len() > 0 ==> final_exp(r@) == pairing_fold(g1_views(ps@), g2_views(qs@)),
{
    Fqk { bytes: miller_loop_raw(ps, qs) }
}

/// `G1Affine::from_compressed` and `G1Affine::to_compressed` of `blstrs`: the first gives a
/// point only for bytes that hold a point of the group, the second gives that point's one
/// canonical encoding, which decodes to the same point again.
#[verifier::external_body]
fn g1_decode_raw(bytes: &[u8; 48]) -> (r: Option<[u8; 48]>)
    ensures
        match r {
            Some(c) => g1_decode(bytes@) == Some(c@) && g1_valid(c@),
            None => g1_decode(bytes@).is_none(),
        },
{
    G1Affine::from_compressed(bytes).map(|p| p.to_compressed())
}

/// `CurveAffine::zero` of `G1Affine`: the point at infinity, which `blst` encodes as the byte
/// `0xc0` followed by zeros.
#[verifier::external_body]
fn g1_identity_raw() -> (r: [u8; 48])
    ensures
        r@ == infinity_encoding(48),
        g1_valid(r@),
{
    G1Affine::zero().to_compressed()
}

/// `CurveProjective::add_assign_mixed` of `G1Projective`: the sum of two points of the group,
/// which is a point of the group.
#[verifier::external_body]
fn g1_add_raw(a: &[u8; 48], b: &[u8; 48]) -> (r: [u8; 48])
    requires
        g1_valid(a@),
        g1_valid(b@),
    ensures
        r@ == g1_sum(a@, b@),
        g1_valid(r@),
{
    let mut p = G1Affine::from_compressed(a).unwrap().into_projective();
    p.add_assign_mixed(&G1Affine::from_compressed(b).unwrap());
    p.into_affine().to_compressed()
}

/// `CurveAffine::negate` of `G1Affine`: the negation of a point of the group.
#[verifier::external_body]
fn g1_negate_raw(a: &[u8; 48]) -> (r: [u8; 48])
    requires
        g1_valid(a@),
    ensures
        r@ == g1_negation(a@),
        g1_valid(r@),
{
    let mut p = G1Affine::from_compressed(a).unwrap();
    p.negate();
    p.to_compressed()
}

/// `CurveAffine::mul` of `G1Affine`: a point of the group multiplied by a scalar, given by the
/// limbs of its value. The pairing is bilinear, as the `Engine` trait of `blstrs` documents
/// it and its engine tests check it, so the pairing of the multiple with any point `q` of G2
/// is the pairing of the point with the same multiple of `q`.
#[verifier::external_body]
fn g1_scale_raw(a: &[u8; 48], s: &[u64; 4]) -> (r: [u8; 48])
    requires
        g1_valid(a@),
        limbs_value(s@) < modulus(),
    ensures
        r@ == g1_scaled(a@, limbs_value(s@)),
        g1_valid(r@),
        scalar_crosses(a@, limbs_value(s@), r@),
{
    G1Affine::from_compressed(a).unwrap().mul(ScalarRepr(*s)).into_affine().to_compressed()
}

/// `G2Affine::from_compressed` and `G2Affine::to_compressed` of `blstrs`: the first gives a
/// point only for bytes that hold a point of the group, the second gives that point's one
/// canonical encoding, which decodes to the same point again.
#[verifier::external_body]
fn g2_decode_raw(bytes: &[u8; 96]) -> (r: Option<[u8; 96]>)
    ensures
        match r {
            Some(c) => g2_decode(bytes@) == Some(c@) && g2_valid(c@),
            None => g2_decode(bytes@).is_none(),
        },
{
    G2Affine::from_compressed(bytes).map(|p| p.to_compressed())
}

/// `CurveAffine::zero` of `G2Affine`: the point at infinity, which `blst` encodes as the byte
/// `0xc0` followed by zeros.
#[verifier::external_body]
fn g2_identity_raw() -> (r: [u8; 96])
    ensures
        r@ == infinity_encoding(96),
        g2_valid(r@),
{
    G2Affine::zero().to_compressed()
}

/// `CurveProjective::add_assign_mixed` of `G2Projective`: the sum of two points of the group,
/// which is a point of the group.
#[verifier::external_body]
fn g2_add_raw(a: &[u8; 96], b: &[u8; 96]) -> (r: [u8; 96])
    requires
        g2_valid(a@),
        g2_valid(b@),
    ensures
        r@ == g2_sum(a@, b@),
        g2_valid(r@),
{
    let mut p = G2Affine::from_compressed(a).unwrap().into_projective();
    p.add_assign_mixed(&G2Affine::from_compressed(b).unwrap());
    p.into_affine().to_compressed()
}

/// `CurveAffine::negate` of `G2Affine`: the negation of a point of the group.
#[verifier::external_body]
fn g2_negate_raw(a: &[u8; 96]) -> (r: [u8; 96])
    requires
        g2_valid(a@),
    ensures
        r@ == g2_negation(a@),
        g2_valid(r@),
{
    let mut p = G2Affine::from_compressed(a).unwrap();
    p.negate();
    p.to_compressed()
}

/// `CurveAffine::mul` of `G2Affine`: a point of the group multiplied by a scalar, given by the
/// limbs of its value. The group has the order of the scalar field, as the `Engine` trait of
/// `blstrs` documents it, so the multiple, multiplied by a scalar of that field that is
/// inverse to the first there, is the point again.
#[verifier::external_body]
fn g2_scale_raw(a: &[u8; 96], s: &[u64; 4]) -> (r: [u8; 96])
    requires
        g2_valid(a@),
        limbs_value(s@) < modulus(),
    ensures
        r@ == g2_scaled(a@, limbs_value(s@)),
        g2_valid(r@),
        scalar_undone(a@, limbs_value(s@), r@),
{
    G2Affine::from_compressed(a).unwrap().mul(ScalarRepr(*s)).into_affine().to_compressed()
}

/// `Field::one` of `Fp12`, as `bincode::serialize` writes it: the twelve coefficients in turn,
/// each reduced and as six limbs, least significant byte first, so a single byte one
/// followed by zeros. `bincode::deserialize` reads an `Fp12` from 576 bytes whose
/// coefficients are reduced; the wrappers below go from and to bytes through the two.
#[verifier::external_body]
fn fqk_one_raw() -> (r: [u8; 576])
    ensures
        r@ == fqk_one(),
        fqk_valid(r@),
{
    bincode::serialize(&Fp12::one()).unwrap().try_into().unwrap()
}

/// `Field::mul_assign` of `Fp12`: the product of two elements of the target field.
#[verifier::external_body]
fn fqk_mul_raw(a: &[u8; 576], b: &[u8; 576]) -> (r: [u8; 576])
    requires
        fqk_valid(a@),
        fqk_valid(b@),
    ensures
        r@ == fqk_product(a@, b@),
        fqk_valid(r@),
{
    let mut x = bincode::deserialize::<Fp12>(&a[..]).unwrap();
    x.mul_assign(&bincode::deserialize::<Fp12>(&b[..]).unwrap());
    bincode::serialize(&x).unwrap().try_into().unwrap()
}

/// `Field::inverse` of `Fp12`: the inverse of an element of the target field, `None` for zero.
#[verifier::external_body]
fn fqk_inverse_raw(a: &[u8; 576]) -> (r: Option<[u8; 576]>)
    requires
        fqk_valid(a@),
    ensures
        match r {
            Some(x) => fqk_inverse(a@) == Some(x@) && fqk_valid(x@),
            None => fqk_inverse(a@).is_none(),
        },
{
    let x = bincode::deserialize::<Fp12>(&a[..]).unwrap();
    x.inverse().map(|y| bincode::serialize(&y).unwrap().try_into().unwrap())
}

/// `Field::pow` of `fff`, on an `Fp12` with the four limbs of a scalar's value as exponent.
#[verifier::external_body]
fn fqk_pow_raw(a: &[u8; 576], s: &[u64; 4]) -> (r: [u8; 576])
    requires
        fqk_valid(a@),
        limbs_value(s@) < modulus(),
    ensures
        r@ == fqk_power(a@, limbs_value(s@)),
        fqk_valid(r@),
{
    let x = bincode::deserialize::<Fp12>(&a[..]).unwrap().pow(ScalarRepr(*s));
    bincode::serialize(&x).unwrap().try_into().unwrap()
}

/// `Engine::miller_loop` of `blstrs::Bls12`, on the prepared forms of the points, pair by
/// pair. Every `G1` and `G2` holds a canonical encoding, so each decodes. The function
/// multiplies the Miller loops of the pairs, and the final exponentiation of that product is
/// the product of the pairings of the pairs: that is what a joint Miller loop is for, and
/// what the engine tests of `blstrs` check of it.
#[verifier::external_body]
fn miller_loop_raw(ps: &Vec<G1>, qs: &Vec<G2>) -> (r: [u8; 576])
    requires
        ps.len() == qs.len(),
    ensures
        r@ == miller_loop(g1_views(ps@), g2_views(qs@)),
        fqk_valid(r@),
        ps@.len() > 0 ==> final_exp(r@) == pairing_fold(g1_views(ps@), g2_views(qs@)),
{
    let left = ps.iter().map(|p| G1Affine::from_compressed(&p.bytes).unwrap().prepare());
    let right = qs.iter().map(|q| G2Affine::from_compressed(&q.bytes).unwrap().prepare());
    let pairs: Vec<_> = left.zip(right).collect();
    let refs: Vec<_> = pairs.iter().map(|(p, q)| (p, q)).collect();
    bincode::serialize(&Bls12::miller_loop(refs.iter())).unwrap().try_into().unwrap()
}

/// `Engine::final_exponentiation` of `blstrs::Bls12`, which gives a value for every element.
#[verifier::external_body]
fn final_exponentiation_raw(a: &[u8; 576]) -> (r: [u8; 576])
    requires
        fqk_valid(a@),
    ensures
        r@ == final_exp(a@),
        fqk_valid(r@),
{
    let x = Bls12::final_exponentiation(&bincode::deserialize::<Fp12>(&a[..]).unwrap()).unwrap();
    bincode::serialize(&x).unwrap().try_into().unwrap()
}

} // verus!
