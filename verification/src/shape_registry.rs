//! The registry that owns the shapes of a scene.
//!
//! Shapes are only ever added. Each gets the next number as its id, so the id
//! of a shape is its place in the order of registration, and that order is the
//! order in which the registry is walked.

use vstd::prelude::*;
use crate::shape::Shape;

verus! {

/// The shapes registered so far, each under the id it was given.
#[derive(Debug)]
pub struct ShapeRegistry {
    shapes: Vec<Shape>,
}

impl View for ShapeRegistry {
    type V = Seq<Shape>;

    /// The shapes in the order of registration.
    closed spec fn view(&self) -> Seq<Shape> {
        self.shapes@
    }
}

/// Every shape carries its place in the sequence as its id.
pub open spec fn ids_are_positions(shapes: Seq<Shape>) -> bool {
    &&& shapes.len() <= u32::MAX
    &&& forall|i: int| 0 <= i < shapes.len() ==> (#[trigger] shapes[i]).spec_data().id == i
}

impl ShapeRegistry {
    #[verifier::type_invariant]
    spec fn well_formed(self) -> bool {
        ids_are_positions(self.shapes@)
    }

    /// An empty registry.
    pub fn new() -> (registry: ShapeRegistry)
        ensures
            registry@.len() == 0,
    {
        ShapeRegistry { shapes: Vec::new() }
    }

    /// Whether another shape can be registered: ids are 32-bit numbers and
    /// none is given twice.
    pub fn has_room(&self) -> (b: bool)
        ensures
            b == (self@.len() < u32::MAX),
            ids_are_positions(self@),
    {
        proof {
            use_type_invariant(self);
        }
        self.shapes.len() < u32::MAX as usize
    }

    /// Takes a shape into the registry and returns the id it was given, which
    /// is the number of shapes registered before it.
    pub fn register(&mut self, object: Shape) -> (id: u32)
        requires
            old(self)@.len() < u32::MAX,
        ensures
            id == old(self)@.len(),
            final(self)@ == old(self)@.push(object.with_id(id)),
            ids_are_positions(final(self)@),
    {
        let mut taken = ShapeRegistry { shapes: Vec::new() };
        core::mem::swap(self, &mut taken);
        proof {
            use_type_invariant(&taken);
        }
        let ShapeRegistry { mut shapes } = taken;
        let id: u32 = shapes.len() as u32;
        let mut object = object;
        object.set_id(id);
        shapes.push(object);
        *self = ShapeRegistry { shapes };
        id
    }

    /// The shape with the given id, or `None` where no shape has it.
    pub fn get(&self, id: u32) -> (found: Option<&Shape>)
        ensures
            found is Some <==> id < self@.len(),
            found matches Some(shape) ==> *shape == self@[id as int] && shape.spec_data().id == id,
    {
        proof {
            use_type_invariant(self);
        }
        let index: usize = id as usize;
        if index < self.shapes.len() {
            Some(&self.shapes[index])
        } else {
            None
        }
    }

    /// The shape that was registered as the `index`-th, counting from 0.
    pub fn get_by_index(&self, index: usize) -> (found: Option<&Shape>)
        ensures
            found is Some <==> index < self@.len(),
            found matches Some(shape) ==> *shape == self@[index as int] && shape.spec_data().id
                == index,
    {
        proof {
            use_type_invariant(self);
        }
        if index < self.shapes.len() {
            Some(&self.shapes[index])
        } else {
            None
        }
    }

    /// The number of shapes.
    pub fn len(&self) -> (n: usize)
        ensures
            n == self@.len(),
            n <= u32::MAX,
    {
        proof {
            use_type_invariant(self);
        }
        self.shapes.len()
    }

    pub fn is_empty(&self) -> (b: bool)
        ensures
            b == (self@.len() == 0),
    {
        self.shapes.len() == 0
    }

    /// All shapes, in the order of registration.
    pub fn iter(&self) -> (all: Vec<&Shape>)
        ensures
            all@.len() == self@.len(),
            forall|i: int| 0 <= i < self@.len() ==> *(#[trigger] all@[i]) == self@[i],
    {
        let mut all: Vec<&Shape> = Vec::new();
        let mut i: usize = 0;
        while i < self.shapes.len()
            invariant
                i <= self.shapes@.len(),
                all@.len() == i,
                forall|k: int| 0 <= k < i ==> *(#[trigger] all@[k]) == self.shapes@[k],
            decreases self.shapes@.len() - i,
        {
            all.push(&self.shapes[i]);
            i += 1;
        }
        all
    }

    /// All shapes, in the order of registration.
    pub fn get_all_spheres(&self) -> (all: Vec<&Shape>)
        ensures
            all@.len() == self@.len(),
            forall|i: int| 0 <= i < self@.len() ==> *(#[trigger] all@[i]) == self@[i],
    {
        self.iter()
    }

    /// The first shape, in the order of registration, of which the predicate
    /// says yes; `None` where it says no of every shape.
    pub fn find_sphere<F: Fn(&Shape) -> bool>(&self, predicate: F) -> (found: Option<&Shape>)
        requires
            forall|i: int| 0 <= i < self@.len() ==> call_requires(predicate, (&#[trigger] self@[i],)),
        ensures
            match found {
                Some(shape) => exists|i: int|
                    0 <= i < self@.len() && *shape == #[trigger] self@[i] && call_ensures(
                        predicate,
                        (&self@[i],),
                        true,
                    ) && forall|k: int|
                        0 <= k < i ==> call_ensures(predicate, (&#[trigger] self@[k],), false),
                None => forall|k: int|
                    0 <= k < self@.len() ==> call_ensures(predicate, (&#[trigger] self@[k],), false),
            },
    {
        let mut i: usize = 0;
        while i < self.shapes.len()
            invariant
                i <= self@.len(),
                self@ == self.shapes@,
                forall|k: int|
                    0 <= k < self@.len() ==> call_requires(predicate, (&#[trigger] self@[k],)),
                forall|k: int| 0 <= k < i ==> call_ensures(predicate, (&#[trigger] self@[k],), false),
            decreases self@.len() - i,
        {
            let shape: &Shape = &self.shapes[i];
            assert(*shape == self@[i as int]);
            if predicate(shape) {
                return Some(shape);
            }
            i += 1;
        }
        None
    }
}

} // verus!
