//! The scene, and the decisions by which a ray is resolved to a colour: which
//! intersection is shaded, and how far reflections are followed.

use vstd::prelude::*;
use crate::colour::Colour;
use crate::intersection::Intersection;
use crate::intersection::all_behind;
use crate::intersection::hit_index;
use crate::intersection::is_hit_index;
use crate::intersection::lemma_hit_is_unique;
use crate::light::Light;
use crate::materials::Material;
use crate::shape::Shape;
use crate::shape_registry::ShapeRegistry;

verus! {

/// How many reflections a primary ray is followed through.
pub const MAX_BOUNCES: i32 = 5;

/// A scene: its shapes and at most one light. Without a light everything is
/// black.
#[derive(Debug)]
pub struct World {
    pub registry: ShapeRegistry,
    pub light: Option<Light>,
}

impl World {
    /// A scene without shapes and without a light.
    pub fn new() -> (world: World)
        ensures
            world.registry@.len() == 0,
            world.light is None,
    {
        World { registry: ShapeRegistry::new(), light: None }
    }

    /// Registers a shape and returns the id it was given.
    pub fn add_object(&mut self, object: Shape) -> (id: u32)
        requires
            old(self).registry@.len() < u32::MAX,
        ensures
            id == old(self).registry@.len(),
            final(self).registry@ == old(self).registry@.push(object.with_id(id)),
            final(self).light == old(self).light,
    {
        self.registry.register(object)
    }

    /// The colour that a ray with the intersections `xs` brings back: black
    /// where nothing is hit, black where the hit names a shape that the scene
    /// does not hold, and otherwise what `shade` makes of the hit and its
    /// shape.
    pub fn colour_at<F: FnOnce(&Intersection, &Shape) -> Colour>(
        &self,
        xs: &[Intersection],
        shade: F,
    ) -> (colour: Colour)
        requires
            forall|j: int|
                is_hit_index(xs@, j) && xs@[j].object_id < self.registry@.len() ==> call_requires(
                    shade,
                    (&xs@[j], &self.registry@[xs@[j].object_id as int]),
                ),
        ensures
            all_behind(xs@) ==> colour == Colour::spec_black(),
            forall|j: int|
                is_hit_index(xs@, j) ==> if xs@[j].object_id < self.registry@.len() {
                    call_ensures(
                        shade,
                        (&xs@[j], &self.registry@[xs@[j].object_id as int]),
                        colour,
                    )
                } else {
                    colour == Colour::spec_black()
                },
    {
        match hit_index(xs) {
            Some(j) => {
                proof {
                    assert forall|k: int| is_hit_index(xs@, k) implies k == j by {
                        lemma_hit_is_unique(xs@, k, j as int);
                    }
                }
                let h: &Intersection = &xs[j];
                match self.registry.get(h.object_id) {
                    Some(shape) => shade(h, shape),
                    None => Colour::black(),
                }
            },
            None => {
                proof {
                    assert forall|k: int| !is_hit_index(xs@, k) by {
                        if 0 <= k < xs@.len() {
                            assert(!xs@[k].t.spec_is_non_negative());
                        }
                    }
                }
                Colour::black()
            },
        }
    }
}

/// Whether a surface of this material, met with this many bounces left, sends
/// a reflected ray on.
pub open spec fn reflects(material: &Material, bounces_remaining: i32) -> bool {
    bounces_remaining > 0 && !material.reflective.spec_is_zero()
}

/// What a surface adds by reflection. With no bounce left, or on a material
/// that does not reflect, that is black and no ray is cast. Otherwise it is
/// what `trace` returns for a budget of one bounce less.
pub fn reflected_colour<F: FnOnce(i32) -> Colour>(
    material: &Material,
    bounces_remaining: i32,
    trace: F,
) -> (colour: Colour)
    requires
        reflects(material, bounces_remaining) ==> call_requires(trace, (
            (bounces_remaining - 1) as i32,
        )),
    ensures
        !reflects(material, bounces_remaining) ==> colour == Colour::spec_black(),
        reflects(material, bounces_remaining) ==> call_ensures(
            trace,
            ((bounces_remaining - 1) as i32,),
            colour,
        ),
{
    if bounces_remaining <= 0 {
        return Colour::black();
    }
    if material.reflective.is_zero() {
        return Colour::black();
    }
    trace(bounces_remaining - 1)
}

/// Whether a ray that started with `budget` bounces, and was reflected at
/// every surface it met, is still followed after `depth` reflections.
pub open spec fn followed(budget: int, depth: nat) -> bool
    decreases depth,
{
    if depth == 0 {
        true
    } else {
        followed(budget, (depth - 1) as nat) && budget - (depth - 1) > 0
    }
}

/// No ray is followed through more reflections than its budget: the budget is
/// a cap on the depth of the recursion, whatever the surfaces are.
pub proof fn lemma_bounce_cap(budget: int, depth: nat)
    requires
        followed(budget, depth),
    ensures
        depth == 0 || depth <= budget,
    decreases depth,
{
    if depth > 0 {
        lemma_bounce_cap(budget, (depth - 1) as nat);
    }
}

} // verus!
