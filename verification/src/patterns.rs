//! The plain stripe pattern: two colours that alternate along x, and a
//! transform.

use vstd::prelude::*;
use crate::colour::Colour;
use crate::matrix::Grid;
use crate::matrix::Matrix;
use crate::pattern::cell;
use crate::pattern::cell_is_even;
use crate::tuple::Tuple;

verus! {

/// Stripes of two colours.
#[derive(Debug)]
pub struct StripePattern {
    pub a: Colour,
    pub b: Colour,
    pub transform: Matrix,
}

impl StripePattern {
    /// Stripes of the two colours under the identity transform.
    pub fn new(a: Colour, b: Colour) -> (p: StripePattern)
        ensures
            p.a == a,
            p.b == b,
            p.transform@ == Grid::identity(),
    {
        StripePattern { a, b, transform: Matrix::identity() }
    }

    /// The colour at a point of the pattern's own space: the first colour
    /// where the cell along x has an even number, the second where it is odd.
    pub fn stripe_at(&self, point: Tuple) -> (colour: Colour)
        ensures
            colour == (if cell(point.x) % 2 == 0 {
                self.a
            } else {
                self.b
            }),
    {
        if cell_is_even(point.x) {
            self.a
        } else {
            self.b
        }
    }

    /// Replaces the transform; the colours stay.
    pub fn set_pattern_transform(&mut self, transform: Matrix)
        ensures
            *final(self) == (StripePattern { transform, ..*old(self) }),
    {
        self.transform = transform;
    }
}

} // verus!
