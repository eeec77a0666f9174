//! Element-wise work on vectors of points and scalars: copying a range, multiplying each entry
//! by its own scalar, and folding a right half into a left half.
use crate::curve::{
    g1_scaled, g1_sum, g1_views, g2_scaled, g2_sum, g2_valid, g2_views, scalar_crosses,
    scalar_undone, G1, G2,
};
use crate::field::{fr_add, fr_mul, fr_values, Fr};
use vstd::prelude::*;

verus! {

/// The points of `ps`, each multiplied by its own scalar in `ss`.
pub open spec fn g1_scale_each(ps: Seq<Seq<u8>>, ss: Seq<nat>) -> Seq<Seq<u8>> {
    Seq::new(ps.len(), |i: int| g1_scaled(ps[i], ss[i]))
}

/// Entry by entry, the point of `left` plus the point of `right` multiplied by `c`.
pub open spec fn g1_folded(left: Seq<Seq<u8>>, right: Seq<Seq<u8>>, c: nat) -> Seq<Seq<u8>> {
    Seq::new(left.len(), |i: int| g1_sum(left[i], g1_scaled(right[i], c)))
}

/// A copy of the entries of `v` from `from` up to `to`.
pub fn g1_range(v: &Vec<G1>, from: usize, to: usize) -> (r: Vec<G1>)
    requires
        from <= to <= v.len(),
    ensures
        r@ == v@.subrange(from as int, to as int),
        g1_views(r@) == g1_views(v@).subrange(from as int, to as int),
{
    let mut r: Vec<G1> = Vec::new();
    let mut i: usize = from;
    while i < to
        invariant
            from <= i <= to <= v.len(),
            r@ == v@.subrange(from as int, i as int),
        decreases to - i,
    {
        r.push(v[i]);
        proof {
            assert(r@ =~= v@.subrange(from as int, i + 1));
        }
        i = i + 1;
    }
    proof {
        assert(g1_views(r@) =~= g1_views(v@).subrange(from as int, to as int));
    }
    r
}

/// The points of `points`, each multiplied by its own scalar in `scalars`.
pub fn g1_scale_vector(points: &Vec<G1>, scalars: &Vec<Fr>) -> (r: Vec<G1>)
    requires
        points.len() == scalars.len(),
    ensures
        g1_views(r@) == g1_scale_each(g1_views(points@), fr_values(scalars@)),
        forall|i: int|
            0 <= i < points@.len() ==> scalar_crosses(
                #[trigger] points@[i]@,
                scalars@[i]@,
                g1_scaled(points@[i]@, scalars@[i]@),
            ),
{
    let ghost want = g1_scale_each(g1_views(points@), fr_values(scalars@));
    let mut r: Vec<G1> = Vec::new();
    let mut i: usize = 0;
    while i < points.len()
        invariant
            i <= points.len(),
            points.len() == scalars.len(),
            want == g1_scale_each(g1_views(points@), fr_values(scalars@)),
            g1_views(r@) == want.take(i as int),
            forall|k: int|
                0 <= k < i ==> scalar_crosses(
                    #[trigger] points@[k]@,
                    scalars@[k]@,
                    g1_scaled(points@[k]@, scalars@[k]@),
                ),
        decreases points.len() - i,
    {
        let ghost before = g1_views(r@);
        let p = points[i].scale(&scalars[i]);
        r.push(p);
        proof {
            assert(g1_views(r@) =~= before.push(p@));
            assert(want.take(i + 1) =~= want.take(i as int).push(want[i as int]));
        }
        i = i + 1;
    }
    proof {
        assert(want.take(points.len() as int) =~= want);
    }
    r
}

/// Entry by entry, the point of `left` plus the point of `right` multiplied by `c`.
pub fn g1_fold_vector(left: &Vec<G1>, right: &Vec<G1>, c: &Fr) -> (r: Vec<G1>)
    requires
        left.len() == right.len(),
    ensures
        g1_views(r@) == g1_folded(g1_views(left@), g1_views(right@), c@),
{
    let ghost want = g1_folded(g1_views(left@), g1_views(right@), c@);
    let mut r: Vec<G1> = Vec::new();
    let mut i: usize = 0;
    while i < left.len()
        invariant
            i <= left.len(),
            left.len() == right.len(),
            want == g1_folded(g1_views(left@), g1_views(right@), c@),
            g1_views(r@) == want.take(i as int),
        decreases left.len() - i,
    {
        let ghost before = g1_views(r@);
        let p = left[i].add(&right[i].scale(c));
        r.push(p);
        proof {
            assert(g1_views(r@) =~= before.push(p@));
            assert(want.take(i + 1) =~= want.take(i as int).push(want[i as int]));
        }
        i = i + 1;
    }
    proof {
        assert(want.take(left.len() as int) =~= want);
    }
    r
}

/// The points of `ps`, each multiplied by its own scalar in `ss`.
pub open spec fn g2_scale_each(ps: Seq<Seq<u8>>, ss: Seq<nat>) -> Seq<Seq<u8>> {
    Seq::new(ps.len(), |i: int| g2_scaled(ps[i], ss[i]))
}

/// Entry by entry, the point of `left` plus the point of `right` multiplied by `c`.
pub open spec fn g2_folded(left: Seq<Seq<u8>>, right: Seq<Seq<u8>>, c: nat) -> Seq<Seq<u8>> {
    Seq::new(left.len(), |i: int| g2_sum(left[i], g2_scaled(right[i], c)))
}

/// A copy of the entries of `v` from `from` up to `to`.
pub fn g2_range(v: &Vec<G2>, from: usize, to: usize) -> (r: Vec<G2>)
    requires
        from <= to <= v.len(),
    ensures
        r@ == v@.subrange(from as int, to as int),
        g2_views(r@) == g2_views(v@).subrange(from as int, to as int),
{
    let mut r: Vec<G2> = Vec::new();
    let mut i: usize = from;
    while i < to
        invariant
            from <= i <= to <= v.len(),
            r@ == v@.subrange(from as int, i as int),
        decreases to - i,
    {
        r.push(v[i]);
        proof {
            assert(r@ =~= v@.subrange(from as int, i + 1));
        }
        i = i + 1;
    }
    proof {
        assert(g2_views(r@) =~= g2_views(v@).subrange(from as int, to as int));
    }
    r
}

/// The points of `points`, each multiplied by its own scalar in `scalars`.
pub fn g2_scale_vector(points: &Vec<G2>, scalars: &Vec<Fr>) -> (r: Vec<G2>)
    requires
        points.len() == scalars.len(),
    ensures
        g2_views(r@) == g2_scale_each(g2_views(points@), fr_values(scalars@)),
        forall|i: int|
            0 <= i < points@.len() ==> g2_valid(g2_scaled(#[trigger] points@[i]@, scalars@[i]@))
                && scalar_undone(points@[i]@, scalars@[i]@, g2_scaled(points@[i]@, scalars@[i]@)),
{
    let ghost want = g2_scale_each(g2_views(points@), fr_values(scalars@));
    let mut r: Vec<G2> = Vec::new();
    let mut i: usize = 0;
    while i < points.len()
        invariant
            i <= points.len(),
            points.len() == scalars.len(),
            want == g2_scale_each(g2_views(points@), fr_values(scalars@)),
            g2_views(r@) == want.take(i as int),
            forall|k: int|
                0 <= k < i ==> g2_valid(g2_scaled(#[trigger] points@[k]@, scalars@[k]@))
                    && scalar_undone(
                    points@[k]@,
                    scalars@[k]@,
                    g2_scaled(points@[k]@, scalars@[k]@),
                ),
        decreases points.len() - i,
    {
        let ghost before = g2_views(r@);
        let p = points[i].scale(&scalars[i]);
        r.push(p);
        proof {
            assert(g2_views(r@) =~= before.push(p@));
            assert(want.take(i + 1) =~= want.take(i as int).push(want[i as int]));
        }
        i = i + 1;
    }
    proof {
        assert(want.take(points.len() as int) =~= want);
    }
    r
}

/// Entry by entry, the point of `left` plus the point of `right` multiplied by `c`.
pub fn g2_fold_vector(left: &Vec<G2>, right: &Vec<G2>, c: &Fr) -> (r: Vec<G2>)
    requires
        left.len() == right.len(),
    ensures
        g2_views(r@) == g2_folded(g2_views(left@), g2_views(right@), c@),
{
    let ghost want = g2_folded(g2_views(left@), g2_views(right@), c@);
    let mut r: Vec<G2> = Vec::new();
    let mut i: usize = 0;
    while i < left.len()
        invariant
            i <= left.len(),
            left.len() == right.len(),
            want == g2_folded(g2_views(left@), g2_views(right@), c@),
            g2_views(r@) == want.take(i as int),
        decreases left.len() - i,
    {
        let ghost before = g2_views(r@);
        let p = left[i].add(&right[i].scale(c));
        r.push(p);
        proof {
            assert(g2_views(r@) =~= before.push(p@));
            assert(want.take(i + 1) =~= want.take(i as int).push(want[i as int]));
        }
        i = i + 1;
    }
    proof {
        assert(want.take(left.len() as int) =~= want);
    }
    r
}

/// The entries of `a` followed by those of `b`.
pub fn g1_concat(a: &Vec<G1>, b: &Vec<G1>) -> (r: Vec<G1>)
    ensures
        g1_views(r@) == g1_views(a@) + g1_views(b@),
        r@.len() == a@.len() + b@.len(),
{
    let ghost want = g1_views(a@) + g1_views(b@);
    let mut r: Vec<G1> = Vec::new();
    let mut i: usize = 0;
    while i < a.len()
        invariant
            i <= a.len(),
            g1_views(r@) == g1_views(a@).take(i as int),
        decreases a.len() - i,
    {
        let ghost before = g1_views(r@);
        r.push(a[i]);
        proof {
            assert(g1_views(r@) =~= before.push(a@[i as int]@));
            assert(g1_views(a@).take(i + 1) =~= g1_views(a@).take(i as int).push(a@[i as int]@));
        }
        i = i + 1;
    }
    proof {
        assert(g1_views(a@).take(a.len() as int) =~= g1_views(a@));
    }
    let mut j: usize = 0;
    while j < b.len()
        invariant
            j <= b.len(),
            g1_views(r@) == g1_views(a@) + g1_views(b@).take(j as int),
        decreases b.len() - j,
    {
        let ghost before = g1_views(r@);
        r.push(b[j]);
        proof {
            assert(g1_views(r@) =~= before.push(b@[j as int]@));
            assert(g1_views(b@).take(j + 1) =~= g1_views(b@).take(j as int).push(b@[j as int]@));
            assert(g1_views(r@) =~= g1_views(a@) + g1_views(b@).take(j + 1));
        }
        j = j + 1;
    }
    proof {
        assert(g1_views(b@).take(b.len() as int) =~= g1_views(b@));
        assert(g1_views(r@).len() == r@.len());
    }
    r
}

/// The entries of `a` followed by those of `b`.
pub fn g2_concat(a: &Vec<G2>, b: &Vec<G2>) -> (r: Vec<G2>)
    ensures
        g2_views(r@) == g2_views(a@) + g2_views(b@),
        r@.len() == a@.len() + b@.len(),
{
    let ghost want = g2_views(a@) + g2_views(b@);
    let mut r: Vec<G2> = Vec::new();
    let mut i: usize = 0;
    while i < a.len()
        invariant
            i <= a.len(),
            g2_views(r@) == g2_views(a@).take(i as int),
        decreases a.len() - i,
    {
        let ghost before = g2_views(r@);
        r.push(a[i]);
        proof {
            assert(g2_views(r@) =~= before.push(a@[i as int]@));
            assert(g2_views(a@).take(i + 1) =~= g2_views(a@).take(i as int).push(a@[i as int]@));
        }
        i = i + 1;
    }
    proof {
        assert(g2_views(a@).take(a.len() as int) =~= g2_views(a@));
    }
    let mut j: usize = 0;
    while j < b.len()
        invariant
            j <= b.len(),
            g2_views(r@) == g2_views(a@) + g2_views(b@).take(j as int),
        decreases b.len() - j,
    {
        let ghost before = g2_views(r@);
        r.push(b[j]);
        proof {
            assert(g2_views(r@) =~= before.push(b@[j as int]@));
            assert(g2_views(b@).take(j + 1) =~= g2_views(b@).take(j as int).push(b@[j as int]@));
            assert(g2_views(r@) =~= g2_views(a@) + g2_views(b@).take(j + 1));
        }
        j = j + 1;
    }
    proof {
        assert(g2_views(b@).take(b.len() as int) =~= g2_views(b@));
        assert(g2_views(r@).len() == r@.len());
    }
    r
}

/// Entry by entry, the scalar of `left` plus the scalar of `right` multiplied by `c`.
pub open spec fn fr_folded(left: Seq<nat>, right: Seq<nat>, c: nat) -> Seq<nat> {
    Seq::new(left.len(), |i: int| fr_add(left[i], fr_mul(right[i], c)))
}

/// A copy of the entries of `v` from `from` up to `to`.
pub fn fr_range(v: &Vec<Fr>, from: usize, to: usize) -> (r: Vec<Fr>)
    requires
        from <= to <= v.len(),
    ensures
        r@ == v@.subrange(from as int, to as int),
        fr_values(r@) == fr_values(v@).subrange(from as int, to as int),
{
    let mut r: Vec<Fr> = Vec::new();
    let mut i: usize = from;
    while i < to
        invariant
            from <= i <= to <= v.len(),
            r@ == v@.subrange(from as int, i as int),
        decreases to - i,
    {
        r.push(v[i]);
        proof {
            assert(r@ =~= v@.subrange(from as int, i + 1));
        }
        i = i + 1;
    }
    proof {
        assert(fr_values(r@) =~= fr_values(v@).subrange(from as int, to as int));
    }
    r
}

/// The entries of `v` in reverse order.
pub fn fr_reversed(v: &Vec<Fr>) -> (r: Vec<Fr>)
    ensures
        fr_values(r@) == fr_values(v@).reverse(),
{
    let ghost want = fr_values(v@).reverse();
    let mut r: Vec<Fr> = Vec::new();
    let mut i: usize = v.len();
    while i > 0
        invariant
            i <= v.len(),
            want == fr_values(v@).reverse(),
            fr_values(r@) == want.take(v.len() - i),
        decreases i,
    {
        let ghost before = fr_values(r@);
        i = i - 1;
        r.push(v[i]);
        proof {
            assert(fr_values(r@) =~= before.push(v@[i as int]@));
            assert(want[v.len() - 1 - i] == v@[i as int]@);
            assert(want.take(v.len() - i) =~= want.take(v.len() - 1 - i).push(
                want[v.len() - 1 - i],
            ));
        }
    }
    proof {
        assert(want.take(v.len() as int) =~= want);
    }
    r
}

/// Entry by entry, the scalar of `left` plus the scalar of `right` multiplied by `c`.
pub fn fr_fold_vector(left: &Vec<Fr>, right: &Vec<Fr>, c: &Fr) -> (r: Vec<Fr>)
    requires
        left.len() == right.len(),
    ensures
        fr_values(r@) == fr_folded(fr_values(left@), fr_values(right@), c@),
{
    let ghost want = fr_folded(fr_values(left@), fr_values(right@), c@);
    let mut r: Vec<Fr> = Vec::new();
    let mut i: usize = 0;
    while i < left.len()
        invariant
            i <= left.len(),
            left.len() == right.len(),
            want == fr_folded(fr_values(left@), fr_values(right@), c@),
            fr_values(r@) == want.take(i as int),
        decreases left.len() - i,
    {
        let ghost before = fr_values(r@);
        let p = left[i].add(&right[i].mul(c));
        r.push(p);
        proof {
            assert(fr_values(r@) =~= before.push(p@));
            assert(want.take(i + 1) =~= want.take(i as int).push(want[i as int]));
        }
        i = i + 1;
    }
    proof {
        assert(want.take(left.len() as int) =~= want);
    }
    r
}

} // verus!
