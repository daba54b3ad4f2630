//! Intersections of a ray with the shapes of a scene: which one is the hit,
//! the order they are walked in, and whether they put a point in shadow.

use vstd::prelude::*;
use vstd::set_lib::lemma_int_range;
use vstd::set_lib::lemma_subset_equality;
use vstd::set_lib::set_int_range;
use crate::scalar::Scalar;
use crate::shape::Shape;
use crate::tuple::Tuple;

verus! {

/// A place where a ray meets the surface of a shape: the ray parameter `t`,
/// which may be negative, and the id of the shape.
#[derive(Clone, Copy, Debug)]
pub struct Intersection {
    pub t: Scalar,
    pub object_id: u32,
}

impl Intersection {
    /// The same shape at the same parameter.
    pub open spec fn same(&self, other: &Intersection) -> bool {
        self.t.same_number(other.t) && self.object_id == other.object_id
    }

    pub fn new(t: Scalar, object: &Shape) -> (i: Intersection)
        ensures
            i.t == t,
            i.object_id == object.spec_data().id,
    {
        Intersection { t, object_id: object.id() }
    }
}

impl PartialEq for Intersection {
    fn eq(&self, other: &Intersection) -> (b: bool) {
        self.t == other.t && self.object_id == other.object_id
    }
}

impl vstd::std_specs::cmp::PartialEqSpecImpl for Intersection {
    open spec fn obeys_eq_spec() -> bool {
        true
    }

    open spec fn eq_spec(&self, other: &Intersection) -> bool {
        self.same(other)
    }
}

/// Whether the intersection at `j` is the hit: its `t` is not negative, no
/// intersection has a smaller `t` that is not negative, and of those with the
/// same `t` it comes first.
pub open spec fn is_hit_index(xs: Seq<Intersection>, j: int) -> bool {
    &&& 0 <= j < xs.len()
    &&& xs[j].t.spec_is_non_negative()
    &&& forall|i: int|
        0 <= i < xs.len() && (#[trigger] xs[i]).t.spec_is_non_negative() ==> xs[j].t.spec_le(xs[i].t)
    &&& forall|i: int|
        0 <= i < j && (#[trigger] xs[i]).t.spec_is_non_negative() ==> xs[j].t.spec_lt(xs[i].t)
}

/// No intersection lies at or in front of the ray's origin.
pub open spec fn all_behind(xs: Seq<Intersection>) -> bool {
    forall|i: int| 0 <= i < xs.len() ==> !(#[trigger] xs[i]).t.spec_is_non_negative()
}

/// The index of the hit, or `None` where every `t` is negative or a NaN.
pub fn hit_index(xs: &[Intersection]) -> (found: Option<usize>)
    ensures
        match found {
            Some(j) => is_hit_index(xs@, j as int),
            None => all_behind(xs@),
        },
{
    let mut best: Option<usize> = None;
    let mut i: usize = 0;
    while i < xs.len()
        invariant
            i <= xs@.len(),
            match best {
                Some(j) => j < i && is_hit_index(xs@.take(i as int), j as int),
                None => all_behind(xs@.take(i as int)),
            },
        decreases xs@.len() - i,
    {
        let t: Scalar = xs[i].t;
        proof {
            let before = xs@.take(i as int);
            let after = xs@.take(i + 1);
            assert(forall|k: int| 0 <= k < i ==> before[k] == #[trigger] after[k]);
        }
        if t.is_non_negative() {
            best = match best {
                Some(j) if !t.lt(xs[j].t) => Some(j),
                _ => Some(i),
            };
        }
        i += 1;
    }
    assert(xs@.take(xs@.len() as int) =~= xs@);
    best
}

/// The hit: the intersection with the smallest `t` that is not negative, the
/// first of them where several share it; `None` where every `t` is negative.
pub fn hit(xs: &[Intersection]) -> (found: Option<&Intersection>)
    ensures
        match found {
            Some(h) => exists|j: int| is_hit_index(xs@, j) && *h == xs@[j],
            None => all_behind(xs@),
        },
{
    match hit_index(xs) {
        Some(j) => Some(&xs[j]),
        None => None,
    }
}

/// Whether intersections along the ray from a point towards the light put the
/// point in shadow: some surface lies in front of the point and strictly nearer
/// than the light.
pub fn is_shadowed(xs: &[Intersection], distance: Scalar) -> (shadowed: bool)
    ensures
        shadowed <==> exists|i: int|
            0 <= i < xs@.len() && (#[trigger] xs@[i]).t.spec_is_non_negative() && xs@[i].t.spec_lt(
                distance,
            ),
{
    match hit_index(xs) {
        Some(j) => {
            let nearer: bool = xs[j].t.lt(distance);
            proof {
                if !nearer {
                    assert forall|i: int|
                        0 <= i < xs@.len() && (
                        #[trigger] xs@[i]).t.spec_is_non_negative() implies !xs@[i].t.spec_lt(
                        distance,
                    ) by {
                        assert(xs@[j as int].t.spec_le(xs@[i].t));
                    }
                }
            }
            nearer
        },
        None => false,
    }
}

/// Turns the normal of a surface towards the eye. Where the normal points away
/// from the eye, which it does when their dot product is negative, the ray
/// comes from inside the shape: the normal is negated and the second result is
/// true.
pub fn orient_normal(normal: Tuple, normal_dot_eye: Scalar) -> (oriented: (Tuple, bool))
    ensures
        oriented.1 == normal_dot_eye.spec_lt(Scalar { bits: 0 }),
        oriented.0 == (if oriented.1 {
            normal.spec_neg()
        } else {
            normal
        }),
{
    if normal_dot_eye.lt(Scalar::zero()) {
        (normal.neg(), true)
    } else {
        (normal, false)
    }
}

/// No `t` in the list is a NaN.
pub open spec fn all_numbers(xs: Seq<Intersection>) -> bool {
    forall|i: int| 0 <= i < xs.len() ==> !(#[trigger] xs[i]).t.spec_is_nan()
}

/// The list is in ascending order of `t`.
pub open spec fn sorted_by_t(xs: Seq<Intersection>) -> bool {
    forall|i: int, j: int| 0 <= i <= j < xs.len() ==> (#[trigger] xs[i]).t.spec_le((#[trigger] xs[j]).t)
}

/// `order` says where in `xs` each element of `sorted` comes from: it names
/// every place of `xs` once, and of two elements with the same `t` the one that
/// stands first in `sorted` stood first in `xs`.
pub open spec fn arranges(order: Seq<int>, sorted: Seq<Intersection>, xs: Seq<Intersection>) -> bool {
    &&& order.len() == xs.len()
    &&& sorted.len() == xs.len()
    &&& forall|k: int| 0 <= k < order.len() ==> 0 <= #[trigger] order[k] < xs.len()
    &&& forall|k: int, l: int| 0 <= k < l < order.len() ==> #[trigger] order[k] != #[trigger] order[l]
    &&& forall|k: int| 0 <= k < sorted.len() ==> #[trigger] sorted[k] == xs[order[k]]
    &&& forall|k: int, l: int|
        0 <= k < l < sorted.len() && (#[trigger] sorted[k]).t.same_number((#[trigger] sorted[l]).t)
            ==> order[k] < order[l]
}

/// `sorted` holds the intersections of `xs` in ascending order of `t`, those
/// with the same `t` in the order they had in `xs`.
pub open spec fn is_stable_sort_of(sorted: Seq<Intersection>, xs: Seq<Intersection>) -> bool {
    &&& sorted_by_t(sorted)
    &&& exists|order: Seq<int>| arranges(order, sorted, xs)
}

/// Puts intersections in ascending order of `t`. Intersections with the same
/// `t` keep the order they came in, which for a scene is the order in which
/// their shapes were registered.
pub fn sort_intersections(xs: Vec<Intersection>) -> (sorted: Vec<Intersection>)
    requires
        all_numbers(xs@),
    ensures
        is_stable_sort_of(sorted@, xs@),
{
    let mut out: Vec<Intersection> = Vec::new();
    let ghost mut order: Seq<int> = Seq::empty();
    let mut i: usize = 0;
    while i < xs.len()
        invariant
            i <= xs@.len(),
            all_numbers(xs@),
            sorted_by_t(out@),
            arranges(order, out@, xs@.take(i as int)),
        decreases xs@.len() - i,
    {
        let x: Intersection = xs[i];
        let ghost seen = xs@.take(i as int);
        let ghost old_out = out@;
        let ghost old_order = order;
        proof {
            assert forall|m: int| 0 <= m < old_out.len() implies !(
            #[trigger] old_out[m]).t.spec_is_nan() by {
                assert(old_out[m] == seen[old_order[m]]);
                assert(seen[old_order[m]] == xs@[old_order[m]]);
            }
        }
        let mut k: usize = out.len();
        while k > 0 && x.t.lt(out[k - 1].t)
            invariant
                k <= out@.len(),
                out@ == old_out,
                forall|m: int| k <= m < out@.len() ==> x.t.spec_lt((#[trigger] out@[m]).t),
            decreases k,
        {
            k -= 1;
        }
        out.insert(k, x);
        proof {
            order = old_order.insert(k as int, i as int);
            let now = xs@.take(i + 1);
            let new_out = out@;
            assert(forall|m: int| 0 <= m < i ==> seen[m] == #[trigger] now[m]);
            assert(now[i as int] == x);
            assert(forall|m: int| 0 <= m < k ==> new_out[m] == old_out[m]);
            assert(new_out[k as int] == x);
            assert(forall|m: int| k < m < new_out.len() ==> new_out[m] == old_out[m - 1]);
            assert(forall|m: int| 0 <= m < k ==> order[m] == old_order[m]);
            assert(order[k as int] == i);
            assert(forall|m: int| k < m < order.len() ==> order[m] == old_order[m - 1]);
            assert(!x.t.spec_is_nan());
            assert forall|m: int| 0 <= m < k implies (#[trigger] old_out[m]).t.spec_le(x.t) by {
                assert(!old_out[k - 1].t.spec_is_nan());
                assert(old_out[m].t.spec_le(old_out[k - 1].t));
            }
            assert forall|a: int, b: int| 0 <= a <= b < new_out.len() implies (
            #[trigger] new_out[a]).t.spec_le((#[trigger] new_out[b]).t) by {
                if a < k && b < k {
                    assert(old_out[a].t.spec_le(old_out[b].t));
                } else if a < k && b == k {
                    assert(old_out[a].t.spec_le(x.t));
                } else if a < k && b > k {
                    assert(old_out[a].t.spec_le(old_out[b - 1].t));
                } else if a == k && b > k {
                    assert(x.t.spec_lt(old_out[b - 1].t));
                } else if a > k {
                    assert(old_out[a - 1].t.spec_le(old_out[b - 1].t));
                }
            }
            assert forall|a: int| 0 <= a < order.len() implies 0 <= #[trigger] order[a] < now.len() by {
                if a < k {
                    assert(0 <= old_order[a] < seen.len());
                } else if a > k {
                    assert(0 <= old_order[a - 1] < seen.len());
                }
            }
            assert forall|a: int, b: int| 0 <= a < b < order.len() implies #[trigger] order[a]
                != #[trigger] order[b] by {
                let pa = if a < k {
                    a
                } else {
                    a - 1
                };
                let pb = if b < k {
                    b
                } else {
                    b - 1
                };
                if a != k && b != k {
                    assert(old_order[pa] != old_order[pb]);
                } else if a == k {
                    assert(0 <= old_order[pb] < seen.len());
                } else {
                    assert(0 <= old_order[pa] < seen.len());
                }
            }
            assert forall|a: int| 0 <= a < new_out.len() implies #[trigger] new_out[a]
                == now[order[a]] by {
                if a < k {
                    assert(old_out[a] == seen[old_order[a]]);
                } else if a > k {
                    assert(old_out[a - 1] == seen[old_order[a - 1]]);
                }
            }
            assert forall|a: int, b: int|
                0 <= a < b < new_out.len() && (#[trigger] new_out[a]).t.same_number(
                    (#[trigger] new_out[b]).t,
                ) implies order[a] < order[b] by {
                if a < k && b < k {
                    assert(old_out[a].t.same_number(old_out[b].t));
                } else if a < k && b == k {
                    assert(0 <= old_order[a] < seen.len());
                } else if a < k && b > k {
                    assert(old_out[a].t.same_number(old_out[b - 1].t));
                } else if a == k {
                    assert(x.t.spec_lt(old_out[b - 1].t));
                } else {
                    assert(old_out[a - 1].t.same_number(old_out[b - 1].t));
                }
            }
        }
        i += 1;
    }
    proof {
        assert(xs@.take(xs@.len() as int) =~= xs@);
    }
    out
}

/// A list of intersections has at most one hit.
pub proof fn lemma_hit_is_unique(xs: Seq<Intersection>, j: int, k: int)
    requires
        is_hit_index(xs, j),
        is_hit_index(xs, k),
    ensures
        j == k,
{
    if j < k {
        assert(xs[k].t.spec_lt(xs[j].t));
        assert(xs[j].t.spec_le(xs[k].t));
    } else if k < j {
        assert(xs[j].t.spec_lt(xs[k].t));
        assert(xs[k].t.spec_le(xs[j].t));
    }
}

/// Whether, once `xs` is sorted, the intersection at place `i` stands before
/// the one at place `j`: it has the smaller `t`, or the same `t` and the
/// earlier place.
pub open spec fn comes_before(xs: Seq<Intersection>, i: int, j: int) -> bool {
    xs[i].t.spec_lt(xs[j].t) || (xs[i].t.same_number(xs[j].t) && i < j)
}

/// An arrangement of a sorted list names the places of `xs` in the order in
/// which they come.
proof fn lemma_arrangement_is_increasing(
    order: Seq<int>,
    sorted: Seq<Intersection>,
    xs: Seq<Intersection>,
    k: int,
    l: int,
)
    requires
        all_numbers(xs),
        sorted_by_t(sorted),
        arranges(order, sorted, xs),
        0 <= k < l < xs.len(),
    ensures
        comes_before(xs, order[k], order[l]),
{
    assert(sorted[k] == xs[order[k]]);
    assert(sorted[l] == xs[order[l]]);
    assert(sorted[k].t.spec_le(sorted[l].t));
    assert(!xs[order[k]].t.spec_is_nan());
    assert(!xs[order[l]].t.spec_is_nan());
}

/// An arrangement names every place.
proof fn lemma_arrangement_names_every_place(order: Seq<int>, i: int) -> (k: int)
    requires
        forall|k: int| 0 <= k < order.len() ==> 0 <= #[trigger] order[k] < order.len(),
        forall|k: int, l: int| 0 <= k < l < order.len() ==> #[trigger] order[k] != #[trigger] order[l],
        0 <= i < order.len(),
    ensures
        0 <= k < order.len(),
        order[k] == i,
{
    let n = order.len() as int;
    assert(order.no_duplicates()) by {
        assert forall|a: int, b: int|
            0 <= a < order.len() && 0 <= b < order.len() && a != b implies order[a] != order[b] by {
            if a < b {
                assert(order[a] != order[b]);
            } else {
                assert(order[b] != order[a]);
            }
        }
    }
    order.unique_seq_to_set();
    lemma_int_range(0, n);
    assert(order.to_set().subset_of(set_int_range(0, n))) by {
        assert forall|v: int| order.to_set().contains(v) implies set_int_range(0, n).contains(
            v,
        ) by {
            let m = choose|m: int| 0 <= m < order.len() && order[m] == v;
            assert(0 <= order[m] < order.len());
        }
    }
    lemma_subset_equality(order.to_set(), set_int_range(0, n));
    assert(set_int_range(0, n).contains(i));
    assert(order.to_set().contains(i));
    choose|k: int| 0 <= k < order.len() && order[k] == i
}

/// Two arrangements of sorted lists of the same intersections agree in their
/// first `k` places.
proof fn lemma_arrangements_agree(
    p: Seq<int>,
    q: Seq<int>,
    a: Seq<Intersection>,
    b: Seq<Intersection>,
    xs: Seq<Intersection>,
    k: int,
)
    requires
        all_numbers(xs),
        sorted_by_t(a),
        sorted_by_t(b),
        arranges(p, a, xs),
        arranges(q, b, xs),
        0 <= k <= xs.len(),
    ensures
        forall|m: int| 0 <= m < k ==> p[m] == q[m],
    decreases k,
{
    if k > 0 {
        lemma_arrangements_agree(p, q, a, b, xs, k - 1);
        let m = k - 1;
        if p[m] != q[m] {
            let i = p[m];
            let j = q[m];
            let l = lemma_arrangement_names_every_place(q, i);
            let r = lemma_arrangement_names_every_place(p, j);
            if l < m {
                assert(p[l] == q[l]);
                assert(p[l] != p[m]);
            }
            if r < m {
                assert(p[r] == q[r]);
                assert(q[r] != q[m]);
            }
            lemma_arrangement_is_increasing(q, b, xs, m, l);
            lemma_arrangement_is_increasing(p, a, xs, m, r);
            assert(comes_before(xs, j, i));
            assert(comes_before(xs, i, j));
        }
    }
}

/// Sorting has one result: two lists that both hold the intersections of `xs`
/// in ascending order of `t`, those with the same `t` in the order they had,
/// are the same list.
pub proof fn lemma_stable_sort_is_unique(
    a: Seq<Intersection>,
    b: Seq<Intersection>,
    xs: Seq<Intersection>,
)
    requires
        all_numbers(xs),
        is_stable_sort_of(a, xs),
        is_stable_sort_of(b, xs),
    ensures
        a == b,
{
    let p = choose|p: Seq<int>| arranges(p, a, xs);
    let q = choose|q: Seq<int>| arranges(q, b, xs);
    lemma_arrangements_agree(p, q, a, b, xs, xs.len() as int);
    assert forall|m: int| 0 <= m < a.len() implies a[m] == b[m] by {
        assert(a[m] == xs[p[m]]);
        assert(b[m] == xs[q[m]]);
    }
    assert(a =~= b);
}

/// In a sorted list the hit is the first intersection whose `t` is not
/// negative: everything before it lies behind the ray's origin.
pub proof fn lemma_hit_of_sorted(xs: Seq<Intersection>, j: int)
    requires
        sorted_by_t(xs),
        is_hit_index(xs, j),
    ensures
        forall|i: int| 0 <= i < j ==> !(#[trigger] xs[i]).t.spec_is_non_negative(),
{
    assert forall|i: int| 0 <= i < j implies !(#[trigger] xs[i]).t.spec_is_non_negative() by {
        if xs[i].t.spec_is_non_negative() {
            assert(xs[j].t.spec_lt(xs[i].t));
            assert(xs[i].t.spec_le(xs[j].t));
        }
    }
}

/// There is a hit exactly when some intersection has a `t` that is not
/// negative.
pub proof fn lemma_hit_exists(xs: Seq<Intersection>)
    ensures
        all_behind(xs) <==> !exists|j: int| is_hit_index(xs, j),
{
    if all_behind(xs) {
        assert forall|j: int| !is_hit_index(xs, j) by {
            if 0 <= j < xs.len() {
                assert(!xs[j].t.spec_is_non_negative());
            }
        }
    } else {
        assert(xs.take(xs.len() as int) =~= xs);
        let j = lemma_first_least(xs, xs.len() as int);
        assert(is_hit_index(xs, j));
    }
}

/// Among the first `n` intersections, if one has a `t` that is not negative,
/// one of them is the hit of those `n`.
proof fn lemma_first_least(xs: Seq<Intersection>, n: int) -> (j: int)
    requires
        0 <= n <= xs.len(),
        !all_behind(xs.take(n)),
    ensures
        is_hit_index(xs.take(n), j),
    decreases n,
{
    let cur = xs.take(n);
    let prev = xs.take(n - 1);
    assert(n > 0);
    assert(forall|k: int| 0 <= k < n - 1 ==> prev[k] == #[trigger] cur[k]);
    let last = cur[n - 1];
    if all_behind(prev) {
        assert(last.t.spec_is_non_negative()) by {
            if !last.t.spec_is_non_negative() {
                assert forall|k: int| 0 <= k < cur.len() implies !(
                #[trigger] cur[k]).t.spec_is_non_negative() by {
                    if k < n - 1 {
                        assert(!prev[k].t.spec_is_non_negative());
                    }
                }
            }
        }
        assert forall|k: int| 0 <= k < n - 1 implies !(
        #[trigger] cur[k]).t.spec_is_non_negative() by {
            assert(!prev[k].t.spec_is_non_negative());
        }
        n - 1
    } else {
        let j = lemma_first_least(xs, n - 1);
        if last.t.spec_is_non_negative() && last.t.spec_lt(prev[j].t) {
            assert forall|k: int|
                0 <= k < cur.len() && (#[trigger] cur[k]).t.spec_is_non_negative() implies last.t.spec_le(
                cur[k].t,
            ) by {
                if k < n - 1 {
                    assert(prev[k].t.spec_is_non_negative());
                }
            }
            assert forall|k: int|
                0 <= k < n - 1 && (#[trigger] cur[k]).t.spec_is_non_negative() implies last.t.spec_lt(
                cur[k].t,
            ) by {
                assert(prev[k].t.spec_is_non_negative());
            }
            n - 1
        } else {
            assert forall|k: int|
                0 <= k < cur.len() && (
                #[trigger] cur[k]).t.spec_is_non_negative() implies cur[j].t.spec_le(cur[k].t) by {
                if k < n - 1 {
                    assert(prev[k].t.spec_is_non_negative());
                }
            }
            assert forall|k: int|
                0 <= k < j && (#[trigger] cur[k]).t.spec_is_non_negative() implies cur[j].t.spec_lt(
                cur[k].t,
            ) by {
                assert(prev[k].t.spec_is_non_negative());
            }
            j
        }
    }
}

} // verus!
