//! Colours as red, green and blue intensities.

use vstd::prelude::*;
use crate::scalar::Scalar;
use crate::scalar::ONE_BITS;

verus! {

/// A colour. The components are not clamped: a value above one is brighter
/// than a display can show.
#[derive(Clone, Copy, Debug)]
pub struct Colour {
    pub r: Scalar,
    pub g: Scalar,
    pub b: Scalar,
}

impl Colour {
    /// Black: every component is positive zero.
    pub open spec fn spec_black() -> Colour {
        Colour { r: Scalar { bits: 0 }, g: Scalar { bits: 0 }, b: Scalar { bits: 0 } }
    }

    /// White: every component is one.
    pub open spec fn spec_white() -> Colour {
        Colour {
            r: Scalar { bits: ONE_BITS },
            g: Scalar { bits: ONE_BITS },
            b: Scalar { bits: ONE_BITS },
        }
    }

    /// Component by component, the same numbers.
    pub open spec fn same_numbers(&self, other: &Colour) -> bool {
        &&& self.r.same_number(other.r)
        &&& self.g.same_number(other.g)
        &&& self.b.same_number(other.b)
    }

    pub fn new(r: Scalar, g: Scalar, b: Scalar) -> (c: Colour)
        ensures
            c == (Colour { r, g, b }),
    {
        Colour { r, g, b }
    }

    #[verifier::when_used_as_spec(spec_black)]
    pub fn black() -> (c: Colour)
        ensures
            c == Colour::spec_black(),
    {
        Colour { r: Scalar::zero(), g: Scalar::zero(), b: Scalar::zero() }
    }

    #[verifier::when_used_as_spec(spec_white)]
    pub fn white() -> (c: Colour)
        ensures
            c == Colour::spec_white(),
    {
        Colour { r: Scalar::one(), g: Scalar::one(), b: Scalar::one() }
    }
}

impl PartialEq for Colour {
    fn eq(&self, other: &Colour) -> (b: bool) {
        self.r == other.r && self.g == other.g && self.b == other.b
    }
}

impl vstd::std_specs::cmp::PartialEqSpecImpl for Colour {
    open spec fn obeys_eq_spec() -> bool {
        true
    }

    open spec fn eq_spec(&self, other: &Colour) -> bool {
        self.same_numbers(other)
    }
}

} // verus!
