//! The media on either side of a hit, found by replaying the intersections
//! along the ray.
//!
//! A ray that meets the surface of an object it is not inside enters it; one
//! that meets the surface of an object it is inside leaves it. The objects the
//! ray is inside are kept on a stack in the order they were entered, and the
//! medium the ray travels in is the one entered last. Every meeting with a
//! surface counts, whatever its `t`; two solids that overlap without one
//! holding the other are not told apart from nested ones.

use vstd::prelude::*;
use crate::intersection::Intersection;
use crate::scalar::Scalar;
use crate::scalar::ONE_BITS;
use crate::shape::Shape;
use crate::shape_registry::ShapeRegistry;

verus! {

/// Whether `k` is the first place at which `stack` holds `id`.
pub open spec fn is_first_place(stack: Seq<u32>, id: u32, k: int) -> bool {
    &&& 0 <= k < stack.len()
    &&& stack[k] == id
    &&& forall|j: int| 0 <= j < k ==> stack[j] != id
}

/// The stack after the ray meets the surface of `id`: without its first `id`
/// where it holds one, with `id` on top where it holds none.
pub open spec fn cross(stack: Seq<u32>, id: u32) -> Seq<u32> {
    if exists|k: int| is_first_place(stack, id, k) {
        stack.remove(choose|k: int| is_first_place(stack, id, k))
    } else {
        stack.push(id)
    }
}

/// The stack of the objects that the ray is inside after it has met the
/// surfaces of `ids`, one after the other.
pub open spec fn containers(ids: Seq<u32>) -> Seq<u32>
    decreases ids.len(),
{
    if ids.len() == 0 {
        Seq::empty()
    } else {
        cross(containers(ids.drop_last()), ids.last())
    }
}

/// The ids of the shapes that a list of intersections names, in its order.
pub open spec fn object_ids(xs: Seq<Intersection>) -> Seq<u32> {
    xs.map_values(|x: Intersection| x.object_id)
}

/// The refractive index of the medium on top of the stack: that of the last
/// object entered, and one where the ray is inside no object.
pub open spec fn medium(stack: Seq<u32>, shapes: Seq<Shape>) -> Scalar {
    if stack.len() == 0 {
        Scalar { bits: ONE_BITS }
    } else {
        shapes[stack.last() as int].spec_data().material.refractive_index
    }
}

/// How often `id` occurs in `ids`.
pub open spec fn crossings(ids: Seq<u32>, id: u32) -> nat
    decreases ids.len(),
{
    if ids.len() == 0 {
        0
    } else {
        crossings(ids.drop_last(), id) + if ids.last() == id {
            1nat
        } else {
            0nat
        }
    }
}

/// No id stands twice in the stack.
pub open spec fn distinct(stack: Seq<u32>) -> bool {
    forall|i: int, j: int| 0 <= i < j < stack.len() ==> stack[i] != stack[j]
}

/// The refractive indices on either side of the intersection at `hit_index`:
/// `n1` of the medium the ray leaves, read before the hit is replayed, and `n2`
/// of the medium it enters, read after. `None` where one of the intersections
/// up to the hit names a shape that the registry does not hold.
pub fn refractive_indices(xs: &[Intersection], hit_index: usize, registry: &ShapeRegistry) -> (found:
    Option<(Scalar, Scalar)>)
    requires
        hit_index < xs@.len(),
    ensures
        found is Some <==> forall|i: int|
            0 <= i <= hit_index ==> (#[trigger] xs@[i]).object_id < registry@.len(),
        found matches Some((n1, n2)) ==> {
            &&& n1 == medium(containers(object_ids(xs@).take(hit_index as int)), registry@)
            &&& n2 == medium(containers(object_ids(xs@).take(hit_index + 1)), registry@)
        },
{
    let ghost ids = object_ids(xs@);
    let mut stack: Vec<u32> = Vec::new();
    let mut i: usize = 0;
    while i < hit_index
        invariant
            i <= hit_index < xs@.len(),
            ids == object_ids(xs@),
            stack@ == containers(ids.take(i as int)),
            forall|k: int| 0 <= k < i ==> (#[trigger] xs@[k]).object_id < registry@.len(),
            forall|k: int| 0 <= k < stack@.len() ==> (#[trigger] stack@[k]) < registry@.len(),
        decreases hit_index - i,
    {
        let id: u32 = xs[i].object_id;
        if registry.get(id).is_none() {
            return None;
        }
        proof {
            assert(ids.take(i + 1).drop_last() =~= ids.take(i as int));
            assert(ids.take(i + 1).last() == id);
        }
        cross_stack(&mut stack, id);
        i += 1;
    }
    let id: u32 = xs[hit_index].object_id;
    if registry.get(id).is_none() {
        return None;
    }
    let n1: Scalar = top_medium(&stack, registry);
    proof {
        assert(ids.take(hit_index + 1).drop_last() =~= ids.take(hit_index as int));
        assert(ids.take(hit_index + 1).last() == id);
    }
    cross_stack(&mut stack, id);
    let n2: Scalar = top_medium(&stack, registry);
    Some((n1, n2))
}

/// Replays one meeting with the surface of `id` on the stack.
fn cross_stack(stack: &mut Vec<u32>, id: u32)
    ensures
        final(stack)@ == cross(old(stack)@, id),
        forall|k: int|
            0 <= k < final(stack)@.len() ==> #[trigger] final(stack)@[k] == id || old(
                stack,
            )@.contains(final(stack)@[k]),
{
    let mut k: usize = 0;
    while k < stack.len()
        invariant
            k <= stack@.len(),
            stack@ == old(stack)@,
            forall|j: int| 0 <= j < k ==> stack@[j] != id,
        decreases stack@.len() - k,
    {
        if stack[k] == id {
            proof {
                let first = choose|f: int| is_first_place(stack@, id, f);
                assert(is_first_place(stack@, id, k as int));
                assert(first == k);
            }
            stack.remove(k);
            assert forall|m: int| 0 <= m < stack@.len() implies old(stack)@.contains(
                #[trigger] stack@[m],
            ) by {
                if m < k {
                    assert(old(stack)@[m] == stack@[m]);
                } else {
                    assert(old(stack)@[m + 1] == stack@[m]);
                }
            }
            return ;
        }
        k += 1;
    }
    proof {
        assert(!exists|f: int| is_first_place(stack@, id, f));
    }
    stack.push(id);
    assert forall|m: int| 0 <= m < stack@.len() implies #[trigger] stack@[m] == id || old(
        stack,
    )@.contains(stack@[m]) by {
        if m < old(stack)@.len() {
            assert(old(stack)@[m] == stack@[m]);
        }
    }
}

/// The refractive index of the medium on top of the stack.
fn top_medium(stack: &Vec<u32>, registry: &ShapeRegistry) -> (n: Scalar)
    requires
        forall|k: int| 0 <= k < stack@.len() ==> (#[trigger] stack@[k]) < registry@.len(),
    ensures
        n == medium(stack@, registry@),
{
    if stack.len() == 0 {
        Scalar::one()
    } else {
        match registry.get(stack[stack.len() - 1]) {
            Some(shape) => shape.material().refractive_index,
            None => Scalar::one(),
        }
    }
}

/// An object is on the stack exactly when the ray has met its surface an odd
/// number of times, and no object is on it twice.
pub proof fn lemma_inside_iff_odd_crossings(ids: Seq<u32>, id: u32)
    ensures
        distinct(containers(ids)),
        containers(ids).contains(id) <==> crossings(ids, id) % 2 == 1,
    decreases ids.len(),
{
    if ids.len() > 0 {
        let before = containers(ids.drop_last());
        let x = ids.last();
        let after = containers(ids);
        lemma_inside_iff_odd_crossings(ids.drop_last(), id);
        lemma_inside_iff_odd_crossings(ids.drop_last(), x);
        if exists|k: int| is_first_place(before, x, k) {
            let k = choose|k: int| is_first_place(before, x, k);
            assert(after == before.remove(k));
            assert(before.contains(x));
            assert forall|i: int, j: int| 0 <= i < j < after.len() implies after[i] != after[j] by {
                let pi = if i < k {
                    i
                } else {
                    i + 1
                };
                let pj = if j < k {
                    j
                } else {
                    j + 1
                };
                assert(after[i] == before[pi]);
                assert(after[j] == before[pj]);
            }
            if after.contains(id) {
                let m = choose|m: int| 0 <= m < after.len() && after[m] == id;
                let pm = if m < k {
                    m
                } else {
                    m + 1
                };
                assert(before[pm] == id);
                assert(before.contains(id));
                assert(id != x);
            }
            if before.contains(id) && id != x {
                let m = choose|m: int| 0 <= m < before.len() && before[m] == id;
                let am = if m < k {
                    m
                } else {
                    m - 1
                };
                assert(after[am] == id);
                assert(after.contains(id));
            }
        } else {
            assert(after == before.push(x));
            assert(!before.contains(x)) by {
                if before.contains(x) {
                    lemma_first_place_exists(before, x, before.len() as int);
                }
            }
            assert forall|i: int, j: int| 0 <= i < j < after.len() implies after[i] != after[j] by {
                if j == before.len() {
                    assert(after[i] == before[i]);
                    assert(before.contains(before[i]));
                } else {
                    assert(after[i] == before[i]);
                    assert(after[j] == before[j]);
                }
            }
            assert(after[before.len() as int] == x);
            if after.contains(id) && id != x {
                let m = choose|m: int| 0 <= m < after.len() && after[m] == id;
                assert(before[m] == id);
                assert(before.contains(id));
            }
            if before.contains(id) {
                let m = choose|m: int| 0 <= m < before.len() && before[m] == id;
                assert(after[m] == id);
            }
        }
    } else {
        assert(!containers(ids).contains(id));
    }
}

/// A stack that holds `id` among its first `n` places holds it at a first
/// place.
proof fn lemma_first_place_exists(stack: Seq<u32>, id: u32, n: int)
    requires
        0 <= n <= stack.len(),
        exists|m: int| 0 <= m < n && stack[m] == id,
    ensures
        exists|k: int| is_first_place(stack, id, k),
    decreases n,
{
    if exists|m: int| 0 <= m < n - 1 && stack[m] == id {
        lemma_first_place_exists(stack, id, n - 1);
    } else {
        assert(is_first_place(stack, id, n - 1));
    }
}

} // verus!
