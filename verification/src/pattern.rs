//! Surface patterns: two colours and a transform of their own, chosen between
//! by where a point falls.

use vstd::prelude::*;
use crate::colour::Colour;
use crate::matrix::Grid;
use crate::matrix::Matrix;
use crate::scalar::Scalar;
use crate::scalar::SIGN_BIT;
use crate::tuple::Tuple;

verus! {

/// The number of the unit cell that a coordinate falls in: the greatest whole
/// number not above it. A NaN falls in cell 0, and an infinite coordinate in
/// the last cell that a 32-bit number can name on its side.
pub open spec fn cell(x: Scalar) -> int {
    if x.spec_is_finite() {
        x.spec_floor()
    } else if x.spec_is_nan() {
        0
    } else if x.sign_bit() {
        i32::MIN as int
    } else {
        i32::MAX as int
    }
}

/// Whether the number of the cell that a coordinate falls in is even.
pub fn cell_is_even(x: Scalar) -> (even: bool)
    ensures
        even == (cell(x) % 2 == 0),
{
    if x.is_finite() {
        x.floor_is_even()
    } else {
        x.is_nan() || x.bits >= SIGN_BIT
    }
}

/// Cells change parity from each to the next, so a pattern that goes by
/// parity repeats after two cells.
pub proof fn lemma_cells_alternate(n: int)
    ensures
        (n % 2 == 0) != ((n + 1) % 2 == 0),
        (n % 2 == 0) == ((n + 2) % 2 == 0),
{
}

/// What every pattern holds: its two colours, its transform and the inverse
/// of that transform. Whoever sets the transform supplies the inverse.
#[derive(Debug)]
pub struct PatternData {
    pub a: Colour,
    pub b: Colour,
    pub transform: Matrix,
    pub inverse_transform: Matrix,
}

impl PatternData {
    /// The same colours and the same two matrices, entry by entry.
    pub open spec fn same(&self, other: &PatternData) -> bool {
        &&& self.a == other.a
        &&& self.b == other.b
        &&& self.transform@ == other.transform@
        &&& self.inverse_transform@ == other.inverse_transform@
    }

    /// The colours as given, under the identity transform.
    pub open spec fn fresh(&self, a: Colour, b: Colour) -> bool {
        &&& self.a == a
        &&& self.b == b
        &&& self.transform@ == Grid::identity()
        &&& self.inverse_transform@ == Grid::identity()
    }

    /// The data with the transform and its inverse replaced.
    pub open spec fn with_transform(self, transform: Matrix, inverse_transform: Matrix) -> PatternData {
        PatternData { transform, inverse_transform, ..self }
    }

    pub fn new(a: Colour, b: Colour) -> (data: PatternData)
        ensures
            data.fresh(a, b),
    {
        PatternData {
            a,
            b,
            transform: Matrix::identity(),
            inverse_transform: Matrix::identity(),
        }
    }

    /// Replaces the transform and its inverse; the colours stay.
    pub fn set_transform(&mut self, transform: Matrix, inverse_transform: Matrix)
        ensures
            *final(self) == old(self).with_transform(transform, inverse_transform),
    {
        self.transform = transform;
        self.inverse_transform = inverse_transform;
    }
}

impl Clone for PatternData {
    fn clone(&self) -> (data: PatternData)
        ensures
            data.same(self),
    {
        PatternData {
            a: self.a,
            b: self.b,
            transform: self.transform.clone(),
            inverse_transform: self.inverse_transform.clone(),
        }
    }
}

/// Stripes that alternate along x.
#[derive(Debug)]
pub struct Striped {
    pub data: PatternData,
}

impl Striped {
    pub fn new(a: Colour, b: Colour) -> (p: Striped)
        ensures
            p.data.fresh(a, b),
    {
        Striped { data: PatternData::new(a, b) }
    }

    pub fn data(&self) -> (data: &PatternData)
        ensures
            *data == self.data,
    {
        &self.data
    }

    /// Replaces the transform and its inverse; the colours stay.
    pub fn set_transform(&mut self, transform: Matrix, inverse_transform: Matrix)
        ensures
            final(self).data == old(self).data.with_transform(transform, inverse_transform),
    {
        self.data.set_transform(transform, inverse_transform);
    }

    /// The colour at a point of the pattern's own space: the first colour
    /// where the cell along x has an even number, the second where it is odd.
    pub fn pattern_at(&self, point: Tuple) -> (colour: Colour)
        ensures
            colour == (if cell(point.x) % 2 == 0 {
                self.data.a
            } else {
                self.data.b
            }),
    {
        if cell_is_even(point.x) {
            self.data.a
        } else {
            self.data.b
        }
    }
}

/// A blend from the first colour to the second along x.
#[derive(Debug)]
pub struct Gradient {
    pub data: PatternData,
}

impl Gradient {
    pub fn new(a: Colour, b: Colour) -> (p: Gradient)
        ensures
            p.data.fresh(a, b),
    {
        Gradient { data: PatternData::new(a, b) }
    }

    pub fn data(&self) -> (data: &PatternData)
        ensures
            *data == self.data,
    {
        &self.data
    }

    /// Replaces the transform and its inverse; the colours stay.
    pub fn set_transform(&mut self, transform: Matrix, inverse_transform: Matrix)
        ensures
            final(self).data == old(self).data.with_transform(transform, inverse_transform),
    {
        self.data.set_transform(transform, inverse_transform);
    }
}

/// Rings that alternate with the distance from the y axis.
#[derive(Debug)]
pub struct Ring {
    pub data: PatternData,
}

impl Ring {
    pub fn new(a: Colour, b: Colour) -> (p: Ring)
        ensures
            p.data.fresh(a, b),
    {
        Ring { data: PatternData::new(a, b) }
    }

    pub fn data(&self) -> (data: &PatternData)
        ensures
            *data == self.data,
    {
        &self.data
    }

    /// Replaces the transform and its inverse; the colours stay.
    pub fn set_transform(&mut self, transform: Matrix, inverse_transform: Matrix)
        ensures
            final(self).data == old(self).data.with_transform(transform, inverse_transform),
    {
        self.data.set_transform(transform, inverse_transform);
    }

    /// The colour at a distance from the y axis of the pattern's own space:
    /// the first colour where the ring has an even number, the second where it
    /// is odd or the distance is not finite.
    pub fn pattern_at_radius(&self, radius: Scalar) -> (colour: Colour)
        ensures
            colour == (if radius.spec_is_finite() && radius.spec_floor() % 2 == 0 {
                self.data.a
            } else {
                self.data.b
            }),
    {
        if radius.is_finite() && radius.floor_is_even() {
            self.data.a
        } else {
            self.data.b
        }
    }
}

/// Cubes that alternate in all three directions.
#[derive(Debug)]
pub struct Checkered {
    pub data: PatternData,
}

impl Checkered {
    pub fn new(a: Colour, b: Colour) -> (p: Checkered)
        ensures
            p.data.fresh(a, b),
    {
        Checkered { data: PatternData::new(a, b) }
    }

    pub fn data(&self) -> (data: &PatternData)
        ensures
            *data == self.data,
    {
        &self.data
    }

    /// Replaces the transform and its inverse; the colours stay.
    pub fn set_transform(&mut self, transform: Matrix, inverse_transform: Matrix)
        ensures
            final(self).data == old(self).data.with_transform(transform, inverse_transform),
    {
        self.data.set_transform(transform, inverse_transform);
    }

    /// The colour at a point of the pattern's own space: the first colour
    /// where the numbers of the cells along x, y and z add up to an even
    /// number, the second where the sum is odd.
    pub fn pattern_at(&self, point: Tuple) -> (colour: Colour)
        ensures
            colour == (if (cell(point.x) + cell(point.y) + cell(point.z)) % 2 == 0 {
                self.data.a
            } else {
                self.data.b
            }),
    {
        let x: bool = cell_is_even(point.x);
        let y: bool = cell_is_even(point.y);
        let z: bool = cell_is_even(point.z);
        if (x == y) == z {
            self.data.a
        } else {
            self.data.b
        }
    }
}

/// A pattern of one of the four kinds.
#[derive(Debug)]
pub enum PatternType {
    Striped(Striped),
    Gradient(Gradient),
    Ring(Ring),
    Checkered(Checkered),
}

impl PatternType {
    /// The colours and transforms of the pattern, whatever its kind.
    pub open spec fn spec_data(&self) -> PatternData {
        match self {
            PatternType::Striped(p) => p.data,
            PatternType::Gradient(p) => p.data,
            PatternType::Ring(p) => p.data,
            PatternType::Checkered(p) => p.data,
        }
    }

    /// The same kind of pattern.
    pub open spec fn same_kind(&self, other: &PatternType) -> bool {
        &&& self is Striped <==> other is Striped
        &&& self is Gradient <==> other is Gradient
        &&& self is Ring <==> other is Ring
        &&& self is Checkered <==> other is Checkered
    }

    /// The same kind of pattern with the same colours and transforms.
    pub open spec fn same(&self, other: &PatternType) -> bool {
        self.same_kind(other) && self.spec_data().same(&other.spec_data())
    }

    pub fn data(&self) -> (data: &PatternData)
        ensures
            *data == self.spec_data(),
    {
        match self {
            PatternType::Striped(p) => &p.data,
            PatternType::Gradient(p) => &p.data,
            PatternType::Ring(p) => &p.data,
            PatternType::Checkered(p) => &p.data,
        }
    }

    /// Replaces the transform and its inverse; the kind and the colours stay.
    pub fn set_transform(&mut self, transform: Matrix, inverse_transform: Matrix)
        ensures
            final(self).spec_data() == old(self).spec_data().with_transform(
                transform,
                inverse_transform,
            ),
            final(self).same_kind(old(self)),
    {
        match self {
            PatternType::Striped(p) => p.data.set_transform(transform, inverse_transform),
            PatternType::Gradient(p) => p.data.set_transform(transform, inverse_transform),
            PatternType::Ring(p) => p.data.set_transform(transform, inverse_transform),
            PatternType::Checkered(p) => p.data.set_transform(transform, inverse_transform),
        }
    }
}

impl Clone for PatternType {
    fn clone(&self) -> (p: PatternType)
        ensures
            p.same(self),
    {
        match self {
            PatternType::Striped(p) => PatternType::Striped(Striped { data: p.data.clone() }),
            PatternType::Gradient(p) => PatternType::Gradient(Gradient { data: p.data.clone() }),
            PatternType::Ring(p) => PatternType::Ring(Ring { data: p.data.clone() }),
            PatternType::Checkered(p) => PatternType::Checkered(Checkered { data: p.data.clone() }),
        }
    }
}

} // verus!
