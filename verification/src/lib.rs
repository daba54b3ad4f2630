//! The core of a recursive ray tracer: the scene and its shapes, the
//! intersections of a ray and the hit among them, the media on either side of
//! a hit, the cap on reflections, patterns, and the pixels of the image.
//!
//! Numbers are binary64 values held by their bit patterns. The library
//! compares them, negates them, finds the cell that a coordinate falls in and
//! shows an intensity as a byte; other arithmetic that rounds is done by the
//! caller.

pub mod canvas;
pub mod colour;
pub mod framebuffer;
pub mod intersection;
pub mod light;
pub mod materials;
pub mod matrix;
pub mod pattern;
pub mod patterns;
pub mod refraction;
pub mod scalar;
pub mod shape;
pub mod shape_registry;
pub mod tuple;
pub mod world;
