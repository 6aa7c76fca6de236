//! Configuration of the primitive shapes. Each builder holds plain values
//! (binary32 bit patterns for lengths and centres) and refuses, by its
//! preconditions, the values the shape cannot be built from.
use vstd::prelude::*;
use crate::float::gt_zero_spec;
use crate::types::{ONE_BITS, ZERO_BITS};

verus! {

/// Bits of the binary32 value `2.0`.
pub const TWO_BITS: u32 = 0x4000_0000;

/// The least number of segments round a sphere or a cylinder.
pub const MIN_SEGMENTS: usize = 3;

/// The least number of rings of a sphere.
pub const MIN_RINGS: usize = 2;

/// A cube of edge `size` centred on `center`, with or without texture
/// coordinates.
#[derive(Debug, Clone, Copy, PartialEq)]
pub struct Cube {
    pub size: u32,
    pub center: (u32, u32, u32),
    pub with_uvs: bool,
}

/// A UV sphere: `segments` around, `rings` from pole to pole.
#[derive(Debug, Clone, Copy, PartialEq)]
pub struct Sphere {
    pub radius: u32,
    pub center: (u32, u32, u32),
    pub segments: usize,
    pub rings: usize,
}

/// A cylinder along the y axis, with `segments` around and optional caps.
#[derive(Debug, Clone, Copy, PartialEq)]
pub struct Cylinder {
    pub radius: u32,
    pub height: u32,
    pub center: (u32, u32, u32),
    pub segments: usize,
    pub caps: bool,
}

impl Cube {
    /// The size is positive.
    pub open spec fn wf(self) -> bool {
        gt_zero_spec(self.size)
    }

    /// A unit cube at the origin, with texture coordinates.
    pub fn new() -> (r: Cube)
        ensures
            r == (Cube { size: ONE_BITS, center: (ZERO_BITS, ZERO_BITS, ZERO_BITS), with_uvs: true }),
            r.wf(),
    {
        Cube { size: ONE_BITS, center: (ZERO_BITS, ZERO_BITS, ZERO_BITS), with_uvs: true }
    }

    /// The same cube with edge `size`, which must be positive.
    pub fn size(self, size: u32) -> (r: Cube)
        requires
            gt_zero_spec(size),
        ensures
            r == (Cube { size, ..self }),
            r.wf(),
    {
        Cube { size, center: self.center, with_uvs: self.with_uvs }
    }

    /// The same cube centred on `(x, y, z)`.
    pub fn center(self, x: u32, y: u32, z: u32) -> (r: Cube)
        ensures
            r == (Cube { center: (x, y, z), ..self }),
            self.wf() ==> r.wf(),
    {
        Cube { size: self.size, center: (x, y, z), with_uvs: self.with_uvs }
    }

    /// The same cube, with texture coordinates or without.
    pub fn with_uvs(self, with_uvs: bool) -> (r: Cube)
        ensures
            r == (Cube { with_uvs, ..self }),
            self.wf() ==> r.wf(),
    {
        Cube { size: self.size, center: self.center, with_uvs }
    }
}

impl Default for Cube {
    fn default() -> (r: Cube)
        ensures
            r == (Cube { size: ONE_BITS, center: (ZERO_BITS, ZERO_BITS, ZERO_BITS), with_uvs: true }),
    {
        Cube::new()
    }
}

impl Sphere {
    /// The radius is positive and there are enough segments and rings to
    /// close the surface.
    pub open spec fn wf(self) -> bool {
        gt_zero_spec(self.radius) && self.segments >= MIN_SEGMENTS && self.rings >= MIN_RINGS
    }

    /// A unit sphere at the origin with 32 segments and 16 rings.
    pub fn new() -> (r: Sphere)
        ensures
            r == (Sphere {
                radius: ONE_BITS,
                center: (ZERO_BITS, ZERO_BITS, ZERO_BITS),
                segments: 32,
                rings: 16,
            }),
            r.wf(),
    {
        Sphere { radius: ONE_BITS, center: (ZERO_BITS, ZERO_BITS, ZERO_BITS), segments: 32, rings: 16 }
    }

    /// The same sphere with radius `radius`, which must be positive.
    pub fn radius(self, radius: u32) -> (r: Sphere)
        requires
            gt_zero_spec(radius),
        ensures
            r == (Sphere { radius, ..self }),
            self.wf() ==> r.wf(),
    {
        Sphere { radius, center: self.center, segments: self.segments, rings: self.rings }
    }

    /// The same sphere centred on `(x, y, z)`.
    pub fn center(self, x: u32, y: u32, z: u32) -> (r: Sphere)
        ensures
            r == (Sphere { center: (x, y, z), ..self }),
            self.wf() ==> r.wf(),
    {
        Sphere { radius: self.radius, center: (x, y, z), segments: self.segments, rings: self.rings }
    }

    /// The same sphere with `segments` around it, at least three.
    pub fn segments(self, segments: usize) -> (r: Sphere)
        requires
            segments >= MIN_SEGMENTS,
        ensures
            r == (Sphere { segments, ..self }),
            self.wf() ==> r.wf(),
    {
        Sphere { radius: self.radius, center: self.center, segments, rings: self.rings }
    }

    /// The same sphere with `rings` from pole to pole, at least two.
    pub fn rings(self, rings: usize) -> (r: Sphere)
        requires
            rings >= MIN_RINGS,
        ensures
            r == (Sphere { rings, ..self }),
            self.wf() ==> r.wf(),
    {
        Sphere { radius: self.radius, center: self.center, segments: self.segments, rings }
    }
}

impl Default for Sphere {
    fn default() -> (r: Sphere)
        ensures
            r == (Sphere {
                radius: ONE_BITS,
                center: (ZERO_BITS, ZERO_BITS, ZERO_BITS),
                segments: 32,
                rings: 16,
            }),
    {
        Sphere::new()
    }
}

impl Cylinder {
    /// The radius and height are positive and there are enough segments to
    /// close the side.
    pub open spec fn wf(self) -> bool {
        gt_zero_spec(self.radius) && gt_zero_spec(self.height) && self.segments >= MIN_SEGMENTS
    }

    /// A cylinder of radius 1 and height 2 at the origin, with 32 segments
    /// and caps.
    pub fn new() -> (r: Cylinder)
        ensures
            r == (Cylinder {
                radius: ONE_BITS,
                height: TWO_BITS,
                center: (ZERO_BITS, ZERO_BITS, ZERO_BITS),
                segments: 32,
                caps: true,
            }),
            r.wf(),
    {
        Cylinder {
            radius: ONE_BITS,
            height: TWO_BITS,
            center: (ZERO_BITS, ZERO_BITS, ZERO_BITS),
            segments: 32,
            caps: true,
        }
    }

    /// The same cylinder with radius `radius`, which must be positive.
    pub fn radius(self, radius: u32) -> (r: Cylinder)
        requires
            gt_zero_spec(radius),
        ensures
            r == (Cylinder { radius, ..self }),
            self.wf() ==> r.wf(),
    {
        Cylinder { radius, height: self.height, center: self.center, segments: self.segments, caps: self.caps }
    }

    /// The same cylinder with height `height`, which must be positive.
    pub fn height(self, height: u32) -> (r: Cylinder)
        requires
            gt_zero_spec(height),
        ensures
            r == (Cylinder { height, ..self }),
            self.wf() ==> r.wf(),
    {
        Cylinder { radius: self.radius, height, center: self.center, segments: self.segments, caps: self.caps }
    }

    /// The same cylinder centred on `(x, y, z)`.
    pub fn center(self, x: u32, y: u32, z: u32) -> (r: Cylinder)
        ensures
            r == (Cylinder { center: (x, y, z), ..self }),
            self.wf() ==> r.wf(),
    {
        Cylinder {
            radius: self.radius,
            height: self.height,
            center: (x, y, z),
            segments: self.segments,
            caps: self.caps,
        }
    }

    /// The same cylinder with `segments` around it, at least three.
    pub fn segments(self, segments: usize) -> (r: Cylinder)
        requires
            segments >= MIN_SEGMENTS,
        ensures
            r == (Cylinder { segments, ..self }),
            self.wf() ==> r.wf(),
    {
        Cylinder { radius: self.radius, height: self.height, center: self.center, segments, caps: self.caps }
    }

    /// The same cylinder, with end caps or without.
    pub fn caps(self, caps: bool) -> (r: Cylinder)
        ensures
            r == (Cylinder { caps, ..self }),
            self.wf() ==> r.wf(),
    {
        Cylinder { radius: self.radius, height: self.height, center: self.center, segments: self.segments, caps }
    }
}

impl Default for Cylinder {
    fn default() -> (r: Cylinder)
        ensures
            r == (Cylinder {
                radius: ONE_BITS,
                height: TWO_BITS,
                center: (ZERO_BITS, ZERO_BITS, ZERO_BITS),
                segments: 32,
                caps: true,
            }),
    {
        Cylinder::new()
    }
}

} // verus!
