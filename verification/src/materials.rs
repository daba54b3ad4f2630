//! Surface materials.

use vstd::prelude::*;
use crate::colour::Colour;
use crate::pattern::PatternType;
use crate::scalar::Scalar;
use crate::scalar::ONE_BITS;

verus! {

/// The default ambient coefficient, 0.1.
pub const DEFAULT_AMBIENT_BITS: u64 = 0x3FB9_9999_9999_999A;

/// The default diffuse and specular coefficient, 0.9.
pub const DEFAULT_DIFFUSE_BITS: u64 = 0x3FEC_CCCC_CCCC_CCCD;

/// The default shininess, 200.
pub const DEFAULT_SHININESS_BITS: u64 = 0x4069_0000_0000_0000;

/// The refractive index of glass, 1.5.
pub const GLASS_REFRACTIVE_INDEX_BITS: u64 = 0x3FF8_0000_0000_0000;

/// How a surface answers light. `reflective` and `transparency` are meant to
/// lie between zero and one and `refractive_index` above zero; a pattern, where
/// there is one, takes the place of `colour`.
#[derive(Clone, Debug)]
pub struct Material {
    pub colour: Colour,
    pub ambient: Scalar,
    pub diffuse: Scalar,
    pub specular: Scalar,
    pub shininess: Scalar,
    pub reflective: Scalar,
    pub transparency: Scalar,
    pub refractive_index: Scalar,
    pub pattern: Option<PatternType>,
}

impl Material {
    /// The default material: white, ambient 0.1, diffuse and specular 0.9,
    /// shininess 200, neither reflective nor transparent, refractive index 1,
    /// no pattern.
    pub open spec fn spec_new() -> Material {
        Material {
            colour: Colour::spec_white(),
            ambient: Scalar { bits: DEFAULT_AMBIENT_BITS },
            diffuse: Scalar { bits: DEFAULT_DIFFUSE_BITS },
            specular: Scalar { bits: DEFAULT_DIFFUSE_BITS },
            shininess: Scalar { bits: DEFAULT_SHININESS_BITS },
            reflective: Scalar { bits: 0 },
            transparency: Scalar { bits: 0 },
            refractive_index: Scalar { bits: ONE_BITS },
            pattern: None,
        }
    }

    /// The default material made fully transparent, with the refractive index
    /// of glass.
    pub open spec fn spec_glass() -> Material {
        Material {
            transparency: Scalar { bits: ONE_BITS },
            refractive_index: Scalar { bits: GLASS_REFRACTIVE_INDEX_BITS },
            ..Material::spec_new()
        }
    }

    #[verifier::when_used_as_spec(spec_new)]
    pub fn new() -> (m: Material)
        ensures
            m == Material::spec_new(),
    {
        Material {
            colour: Colour::white(),
            ambient: Scalar::from_bits(DEFAULT_AMBIENT_BITS),
            diffuse: Scalar::from_bits(DEFAULT_DIFFUSE_BITS),
            specular: Scalar::from_bits(DEFAULT_DIFFUSE_BITS),
            shininess: Scalar::from_bits(DEFAULT_SHININESS_BITS),
            reflective: Scalar::zero(),
            transparency: Scalar::zero(),
            refractive_index: Scalar::one(),
            pattern: None,
        }
    }

    #[verifier::when_used_as_spec(spec_glass)]
    pub fn glass() -> (m: Material)
        ensures
            m == Material::spec_glass(),
    {
        let mut m = Material::new();
        m.transparency = Scalar::one();
        m.refractive_index = Scalar::from_bits(GLASS_REFRACTIVE_INDEX_BITS);
        m
    }

    pub fn colour(&self) -> (colour: &Colour)
        ensures
            *colour == self.colour,
    {
        &self.colour
    }

    pub fn ambient(&self) -> (ambient: Scalar)
        ensures
            ambient == self.ambient,
    {
        self.ambient
    }

    pub fn diffuse(&self) -> (diffuse: Scalar)
        ensures
            diffuse == self.diffuse,
    {
        self.diffuse
    }

    pub fn specular(&self) -> (specular: Scalar)
        ensures
            specular == self.specular,
    {
        self.specular
    }

    pub fn shininess(&self) -> (shininess: Scalar)
        ensures
            shininess == self.shininess,
    {
        self.shininess
    }

    /// A copy of the pattern, where there is one.
    pub fn pattern(&self) -> (pattern: Option<PatternType>)
        ensures
            pattern is Some <==> self.pattern is Some,
            pattern matches Some(p) ==> p.same(&self.pattern->0),
    {
        match &self.pattern {
            Some(p) => Some(p.clone()),
            None => None,
        }
    }

    pub fn set_colour(&mut self, colour: Colour)
        ensures
            *final(self) == (Material { colour, ..*old(self) }),
    {
        self.colour = colour;
    }

    pub fn set_ambient(&mut self, ambient: Scalar)
        ensures
            *final(self) == (Material { ambient, ..*old(self) }),
    {
        self.ambient = ambient;
    }

    pub fn set_diffuse(&mut self, diffuse: Scalar)
        ensures
            *final(self) == (Material { diffuse, ..*old(self) }),
    {
        self.diffuse = diffuse;
    }

    pub fn set_specular(&mut self, specular: Scalar)
        ensures
            *final(self) == (Material { specular, ..*old(self) }),
    {
        self.specular = specular;
    }

    pub fn set_shininess(&mut self, shininess: Scalar)
        ensures
            *final(self) == (Material { shininess, ..*old(self) }),
    {
        self.shininess = shininess;
    }

    pub fn set_pattern(&mut self, pattern: Option<PatternType>)
        ensures
            *final(self) == (Material { pattern, ..*old(self) }),
    {
        self.pattern = pattern;
    }
}

/// Whether a surface takes diffuse and specular light: it does unless it lies
/// in shadow or the light is behind it, which it is when the dot product of
/// the direction to the light and the normal is negative. Ambient light
/// reaches every surface.
pub fn is_lit(light_dot_normal: Scalar, in_shadow: bool) -> (lit: bool)
    ensures
        lit == (!in_shadow && !light_dot_normal.spec_lt(Scalar { bits: 0 })),
{
    !(light_dot_normal.lt(Scalar::zero()) || in_shadow)
}

/// Whether a lit surface shows a highlight: it does unless the reflected light
/// points away from the eye, which it does when the dot product of the
/// reflection and the direction to the eye is zero or negative.
pub fn has_highlight(reflect_dot_eye: Scalar) -> (highlight: bool)
    ensures
        highlight == !reflect_dot_eye.spec_le(Scalar { bits: 0 }),
{
    !reflect_dot_eye.le(Scalar::zero())
}

} // verus!
