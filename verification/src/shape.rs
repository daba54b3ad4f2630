//! Shapes: what every shape holds, the kinds of shape, and the counter that
//! numbers spheres made outside a registry.

use vstd::prelude::*;
use crate::materials::Material;
use crate::matrix::Grid;
use crate::matrix::Matrix;
use crate::scalar::Scalar;
use crate::scalar::ONE_BITS;
use crate::tuple::Tuple;

verus! {

/// The direction below which a ray counts as parallel to a plane: 50000 times
/// the machine epsilon.
pub const PARALLEL_BITS: u64 = 0x3DA8_6A00_0000_0000;

/// What every shape holds. The id is given by the registry that owns the
/// shape; whoever sets the transform supplies its inverse.
#[derive(Clone, Debug)]
pub struct ShapeData {
    pub id: u32,
    pub transform: Matrix,
    pub inverse_transform: Matrix,
    pub material: Material,
}

impl ShapeData {
    /// Id 0, the identity transform, the given material.
    pub open spec fn fresh(&self, material: Material) -> bool {
        &&& self.id == 0
        &&& self.transform@ == Grid::identity()
        &&& self.inverse_transform@ == Grid::identity()
        &&& self.material == material
    }

    /// Data with id 0, the identity transform and the given material.
    pub fn new(material: Material) -> (data: ShapeData)
        ensures
            data.fresh(material),
    {
        ShapeData {
            id: 0,
            transform: Matrix::identity(),
            inverse_transform: Matrix::identity(),
            material,
        }
    }

    pub fn set_id(&mut self, id: u32)
        ensures
            *final(self) == (ShapeData { id, ..*old(self) }),
    {
        self.id = id;
    }
}

/// A counter that numbers spheres made outside a registry. It wraps around
/// after the last 32-bit number.
#[derive(Debug)]
pub struct SphereCounter {
    next: u32,
}

impl View for SphereCounter {
    type V = u32;

    /// The number that is handed out next.
    closed spec fn view(&self) -> u32 {
        self.next
    }
}

impl SphereCounter {
    /// The number after `id`, which after the last 32-bit number is 0.
    pub open spec fn after(id: u32) -> u32 {
        if id == u32::MAX {
            0
        } else {
            (id + 1) as u32
        }
    }

    /// A counter that starts at 0.
    pub fn new() -> (counter: SphereCounter)
        ensures
            counter@ == 0,
    {
        SphereCounter { next: 0 }
    }

    /// Hands out the next number.
    pub fn next_id(&mut self) -> (id: u32)
        ensures
            id == old(self)@,
            final(self)@ == SphereCounter::after(old(self)@),
    {
        let id: u32 = self.next;
        self.next = if id == u32::MAX {
            0
        } else {
            id + 1
        };
        id
    }
}

/// Starts the counter again at 0.
pub fn reset_sphere_counter(counter: &mut SphereCounter)
    ensures
        final(counter)@ == 0,
{
    counter.next = 0;
}

/// The unit sphere at the origin of its own space.
#[derive(Clone, Debug)]
pub struct Sphere {
    pub data: ShapeData,
}

impl Sphere {
    /// A sphere with the default material.
    pub fn new() -> (s: Sphere)
        ensures
            s.data.fresh(Material::spec_new()),
    {
        Sphere { data: ShapeData::new(Material::new()) }
    }

    /// A sphere of glass: fully transparent, with refractive index 1.5.
    pub fn glass() -> (s: Sphere)
        ensures
            s.data.fresh(Material::spec_glass()),
    {
        Sphere { data: ShapeData::new(Material::glass()) }
    }

    /// A sphere with the default material, numbered by a counter instead of a
    /// registry.
    pub fn numbered(counter: &mut SphereCounter) -> (s: Sphere)
        ensures
            s.data.id == old(counter)@,
            s.data.transform@ == Grid::identity(),
            s.data.inverse_transform@ == Grid::identity(),
            s.data.material == Material::spec_new(),
            final(counter)@ == SphereCounter::after(old(counter)@),
    {
        let mut sphere = Sphere::new();
        sphere.data.id = counter.next_id();
        sphere
    }

    /// Whether a ray misses the sphere: the discriminant of the equation for
    /// its intersections is negative. A ray that touches the sphere does not
    /// miss it.
    pub fn misses(discriminant: Scalar) -> (miss: bool)
        ensures
            miss == discriminant.spec_lt(Scalar { bits: 0 }),
    {
        discriminant.lt(Scalar::zero())
    }

    /// The normal of the sphere at a point of its surface: the vector from the
    /// origin to the point.
    pub fn local_normal_at(&self, local_point: &Tuple) -> (normal: Tuple)
        ensures
            normal == Shape::sphere_normal(*local_point),
    {
        Tuple::vector(local_point.x, local_point.y, local_point.z)
    }
}

/// The x–z plane of its own space.
#[derive(Clone, Debug)]
pub struct Plane {
    pub data: ShapeData,
}

impl Plane {
    /// A plane with the default material.
    pub fn new() -> (p: Plane)
        ensures
            p.data.fresh(Material::spec_new()),
    {
        Plane { data: ShapeData::new(Material::new()) }
    }

    /// Whether a ray counts as parallel to the plane, and so as missing it:
    /// the y component of its direction is within 50000 times the machine
    /// epsilon of zero.
    pub fn is_parallel(direction_y: Scalar) -> (parallel: bool)
        ensures
            parallel == direction_y.spec_abs().spec_lt(Scalar { bits: PARALLEL_BITS }),
    {
        direction_y.abs().lt(Scalar::from_bits(PARALLEL_BITS))
    }

    /// The normal of the plane, which is the same everywhere: the y axis.
    pub fn local_normal_at(&self, local_point: &Tuple) -> (normal: Tuple)
        ensures
            normal == Shape::plane_normal(),
    {
        Tuple::vector(Scalar::zero(), Scalar::one(), Scalar::zero())
    }
}

/// A shape of one of the kinds that can be rendered.
#[derive(Clone, Debug)]
pub enum Shape {
    Sphere(Sphere),
    Plane(Plane),
}

impl Shape {
    /// What the shape holds, whatever its kind.
    pub open spec fn spec_data(&self) -> ShapeData {
        match self {
            Shape::Sphere(s) => s.data,
            Shape::Plane(p) => p.data,
        }
    }

    /// The shape with its data replaced.
    pub open spec fn with_data(self, data: ShapeData) -> Shape {
        match self {
            Shape::Sphere(_) => Shape::Sphere(Sphere { data }),
            Shape::Plane(_) => Shape::Plane(Plane { data }),
        }
    }

    /// The shape with its id replaced.
    pub open spec fn with_id(self, id: u32) -> Shape {
        self.with_data(ShapeData { id, ..self.spec_data() })
    }

    /// The normal of the unit sphere at a point: its x, y and z as a vector.
    pub open spec fn sphere_normal(point: Tuple) -> Tuple {
        Tuple { x: point.x, y: point.y, z: point.z, w: Scalar { bits: 0 } }
    }

    /// The normal of the x–z plane: the vector `(0, 1, 0)`.
    pub open spec fn plane_normal() -> Tuple {
        Tuple {
            x: Scalar { bits: 0 },
            y: Scalar { bits: ONE_BITS },
            z: Scalar { bits: 0 },
            w: Scalar { bits: 0 },
        }
    }

    pub fn data(&self) -> (data: &ShapeData)
        ensures
            *data == self.spec_data(),
    {
        match self {
            Shape::Sphere(s) => &s.data,
            Shape::Plane(p) => &p.data,
        }
    }

    pub fn id(&self) -> (id: u32)
        ensures
            id == self.spec_data().id,
    {
        self.data().id
    }

    pub fn transform(&self) -> (m: &Matrix)
        ensures
            *m == self.spec_data().transform,
    {
        &self.data().transform
    }

    pub fn inverse_transform(&self) -> (m: &Matrix)
        ensures
            *m == self.spec_data().inverse_transform,
    {
        &self.data().inverse_transform
    }

    pub fn material(&self) -> (m: &Material)
        ensures
            *m == self.spec_data().material,
    {
        &self.data().material
    }

    /// The normal of the shape at a point of its surface, both in the space
    /// of the shape.
    pub fn local_normal_at(&self, local_point: &Tuple) -> (normal: Tuple)
        ensures
            normal == (match self {
                Shape::Sphere(_) => Shape::sphere_normal(*local_point),
                Shape::Plane(_) => Shape::plane_normal(),
            }),
    {
        match self {
            Shape::Sphere(s) => s.local_normal_at(local_point),
            Shape::Plane(p) => p.local_normal_at(local_point),
        }
    }

    pub fn set_id(&mut self, id: u32)
        ensures
            *final(self) == old(self).with_id(id),
    {
        match self {
            Shape::Sphere(s) => {
                s.data.id = id;
            },
            Shape::Plane(p) => {
                p.data.id = id;
            },
        }
    }

    /// Replaces the transform and its inverse.
    pub fn set_transform(&mut self, transform: Matrix, inverse_transform: Matrix)
        ensures
            *final(self) == old(self).with_data(
                ShapeData { transform, inverse_transform, ..old(self).spec_data() },
            ),
    {
        match self {
            Shape::Sphere(s) => {
                s.data.transform = transform;
                s.data.inverse_transform = inverse_transform;
            },
            Shape::Plane(p) => {
                p.data.transform = transform;
                p.data.inverse_transform = inverse_transform;
            },
        }
    }

    pub fn set_material(&mut self, material: Material)
        ensures
            *final(self) == old(self).with_data(ShapeData { material, ..old(self).spec_data() }),
    {
        match self {
            Shape::Sphere(s) => {
                s.data.material = material;
            },
            Shape::Plane(p) => {
                p.data.material = material;
            },
        }
    }
}

} // verus!
