//! Inner products of vectors: the pairing product of a vector of G1 with a vector of G2, and
//! the multi-exponentiation of a vector of points by a vector of scalars.
use crate::curve::{
    final_exp, g1_scaled, g1_sum, g1_views, g2_scaled, g2_sum, g2_views, infinity_encoding,
    miller_loop, miller_loop_of, pairing_fold, Fqk, G1, G2,
};
use crate::field::{fr_values, Fr};
use vstd::prelude::*;

verus! {

/// The pairing product of two equally long vectors: the product of the pairings of their
/// entries. For empty vectors it is what the final exponentiation makes of an empty Miller
/// loop.
pub open spec fn pairing_product(ps: Seq<Seq<u8>>, qs: Seq<Seq<u8>>) -> Seq<u8> {
    if ps.len() == 0 {
        final_exp(miller_loop(ps, qs))
    } else {
        pairing_fold(ps, qs)
    }
}

/// The sum of the points `ps[i]`, each multiplied by the scalar `ss[i]`.
pub open spec fn g1_multiexp(ps: Seq<Seq<u8>>, ss: Seq<nat>) -> Seq<u8>
    decreases ps.len(),
{
    if ps.len() == 0 {
        infinity_encoding(48)
    } else {
        g1_sum(g1_multiexp(ps.drop_last(), ss.drop_last()), g1_scaled(ps.last(), ss.last()))
    }
}

/// The sum of the points `ps[i]`, each multiplied by the scalar `ss[i]`.
pub open spec fn g2_multiexp(ps: Seq<Seq<u8>>, ss: Seq<nat>) -> Seq<u8>
    decreases ps.len(),
{
    if ps.len() == 0 {
        infinity_encoding(96)
    } else {
        g2_sum(g2_multiexp(ps.drop_last(), ss.drop_last()), g2_scaled(ps.last(), ss.last()))
    }
}

/// The Miller loop over the pairs of two vectors, without the final exponentiation.
pub fn pairing_miller_affine(left: &Vec<G1>, right: &Vec<G2>) -> (r: Fqk)
    requires
        left.len() == right.len(),
    ensures
        r@ == miller_loop(g1_views(left@), g2_views(right@)),
        final_exp(r@) == pairing_product(g1_views(left@), g2_views(right@)),
{
    miller_loop_of(left, right)
}

/// The pairing product of two vectors, computed with one joint Miller loop and one final
/// exponentiation.
pub fn pairing(left: &Vec<G1>, right: &Vec<G2>) -> (r: Fqk)
    requires
        left.len() == right.len(),
    ensures
        r@ == pairing_product(g1_views(left@), g2_views(right@)),
{
    pairing_miller_affine(left, right).final_exponentiation()
}

/// The sum of the points of `left`, each multiplied by its scalar in `right`.
pub fn multiexponentiation(left: &Vec<G1>, right: &Vec<Fr>) -> (r: G1)
    requires
        left.len() == right.len(),
    ensures
        r@ == g1_multiexp(g1_views(left@), fr_values(right@)),
{
    let ghost ps = g1_views(left@);
    let ghost ss = fr_values(right@);
    let mut acc = G1::identity();
    let mut i: usize = 0;
    proof {
        assert(ps.take(0).len() == 0);
    }
    while i < left.len()
        invariant
            i <= left.len(),
            left.len() == right.len(),
            ps == g1_views(left@),
            ss == fr_values(right@),
            acc@ == g1_multiexp(ps.take(i as int), ss.take(i as int)),
        decreases left.len() - i,
    {
        proof {
            assert(ps.take(i + 1).drop_last() =~= ps.take(i as int));
            assert(ss.take(i + 1).drop_last() =~= ss.take(i as int));
            assert(ps.take(i + 1).last() == left@[i as int]@);
            assert(ss.take(i + 1).last() == right@[i as int]@);
        }
        acc = acc.add(&left[i].scale(&right[i]));
        i = i + 1;
    }
    proof {
        assert(ps.take(left.len() as int) =~= ps);
        assert(ss.take(left.len() as int) =~= ss);
    }
    acc
}

/// The sum of the points of `left`, each multiplied by its scalar in `right`.
pub fn multiexponentiation_g2(left: &Vec<G2>, right: &Vec<Fr>) -> (r: G2)
    requires
        left.len() == right.len(),
    ensures
        r@ == g2_multiexp(g2_views(left@), fr_values(right@)),
{
    let ghost ps = g2_views(left@);
    let ghost ss = fr_values(right@);
    let mut acc = G2::identity();
    let mut i: usize = 0;
    proof {
        assert(ps.take(0).len() == 0);
    }
    while i < left.len()
        invariant
            i <= left.len(),
            left.len() == right.len(),
            ps == g2_views(left@),
            ss == fr_values(right@),
            acc@ == g2_multiexp(ps.take(i as int), ss.take(i as int)),
        decreases left.len() - i,
    {
        proof {
            assert(ps.take(i + 1).drop_last() =~= ps.take(i as int));
            assert(ss.take(i + 1).drop_last() =~= ss.take(i as int));
            assert(ps.take(i + 1).last() == left@[i as int]@);
            assert(ss.take(i + 1).last() == right@[i as int]@);
        }
        acc = acc.add(&left[i].scale(&right[i]));
        i = i + 1;
    }
    proof {
        assert(ps.take(left.len() as int) =~= ps);
        assert(ss.take(left.len() as int) =~= ss);
    }
    acc
}

} // verus!
