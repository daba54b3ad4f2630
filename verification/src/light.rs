//! The light of a scene.

use vstd::prelude::*;
use crate::colour::Colour;
use crate::tuple::Tuple;

verus! {

/// A point light: it shines from one place, the same in all directions.
#[derive(Clone, Copy, Debug)]
pub struct Light {
    pub position: Tuple,
    pub intensity: Colour,
}

impl Light {
    pub fn point_light(position: Tuple, intensity: Colour) -> (light: Light)
        ensures
            light == (Light { position, intensity }),
    {
        Light { position, intensity }
    }
}

} // verus!
