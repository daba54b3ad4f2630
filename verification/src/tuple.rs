//! Points and vectors as homogeneous 4-tuples.

use vstd::prelude::*;
use crate::scalar::Scalar;
use crate::scalar::ONE_BITS;

verus! {

/// A homogeneous 4-tuple: a point when `w` is one, a vector when `w` is zero.
#[derive(Clone, Copy, Debug)]
pub struct Tuple {
    pub x: Scalar,
    pub y: Scalar,
    pub z: Scalar,
    pub w: Scalar,
}

impl Tuple {
    /// Whether `w` is the number one.
    pub open spec fn spec_is_point(&self) -> bool {
        self.w.same_number(Scalar { bits: ONE_BITS })
    }

    /// Whether `w` is the number zero, of either sign.
    pub open spec fn spec_is_vector(&self) -> bool {
        self.w.spec_is_zero()
    }

    /// The tuple with every component negated.
    pub open spec fn spec_neg(self) -> Tuple {
        Tuple {
            x: self.x.spec_neg(),
            y: self.y.spec_neg(),
            z: self.z.spec_neg(),
            w: self.w.spec_neg(),
        }
    }

    /// Component by component, the same numbers.
    pub open spec fn same_numbers(&self, other: &Tuple) -> bool {
        &&& self.x.same_number(other.x)
        &&& self.y.same_number(other.y)
        &&& self.z.same_number(other.z)
        &&& self.w.same_number(other.w)
    }

    pub fn new(x: Scalar, y: Scalar, z: Scalar, w: Scalar) -> (t: Tuple)
        ensures
            t == (Tuple { x, y, z, w }),
    {
        Tuple { x, y, z, w }
    }

    pub fn point(x: Scalar, y: Scalar, z: Scalar) -> (t: Tuple)
        ensures
            t == (Tuple { x, y, z, w: Scalar { bits: ONE_BITS } }),
            t.spec_is_point(),
    {
        Tuple { x, y, z, w: Scalar::one() }
    }

    pub fn vector(x: Scalar, y: Scalar, z: Scalar) -> (t: Tuple)
        ensures
            t == (Tuple { x, y, z, w: Scalar { bits: 0 } }),
            t.spec_is_vector(),
    {
        Tuple { x, y, z, w: Scalar::zero() }
    }

    #[verifier::when_used_as_spec(spec_is_point)]
    pub fn is_point(&self) -> (b: bool)
        ensures
            b == self.spec_is_point(),
    {
        self.w == Scalar::one()
    }

    #[verifier::when_used_as_spec(spec_is_vector)]
    pub fn is_vector(&self) -> (b: bool)
        ensures
            b == self.spec_is_vector(),
    {
        self.w.is_zero()
    }

    #[verifier::when_used_as_spec(spec_neg)]
    pub fn neg(self) -> (t: Tuple)
        ensures
            t == self.spec_neg(),
    {
        Tuple { x: self.x.neg(), y: self.y.neg(), z: self.z.neg(), w: self.w.neg() }
    }
}

impl PartialEq for Tuple {
    fn eq(&self, other: &Tuple) -> (b: bool) {
        self.x == other.x && self.y == other.y && self.z == other.z && self.w == other.w
    }
}

impl vstd::std_specs::cmp::PartialEqSpecImpl for Tuple {
    open spec fn obeys_eq_spec() -> bool {
        true
    }

    open spec fn eq_spec(&self, other: &Tuple) -> bool {
        self.same_numbers(other)
    }
}

/// Negating a tuple twice gives it back, and negation keeps a vector a vector.
pub proof fn lemma_tuple_neg(t: Tuple)
    ensures
        t.spec_neg().spec_neg() == t,
        t.spec_is_vector() ==> t.spec_neg().spec_is_vector(),
{
}

} // verus!
