use vstd::prelude::*;

verus! {

/// A three-component vector of world units.
///
/// World coordinates are integers; a host that works in fractional units
/// scales them to integers before handing them to the library.
#[derive(Clone, Copy, Debug, PartialEq, Eq, Structural)]
pub struct Vec3 {
    pub x: i32,
    pub y: i32,
    pub z: i32,
}

impl Vec3 {
    pub fn new(x: i32, y: i32, z: i32) -> (r: Vec3)
        ensures
            r.x == x,
            r.y == y,
            r.z == z,
    {
        Vec3 { x, y, z }
    }

    pub fn zero() -> (r: Vec3)
        ensures
            r.x == 0,
            r.y == 0,
            r.z == 0,
    {
        Vec3 { x: 0, y: 0, z: 0 }
    }

    pub open spec fn spec_one() -> Vec3 {
        Vec3 { x: 1, y: 1, z: 1 }
    }

    pub fn one() -> (r: Vec3)
        ensures
            r == Self::spec_one(),
    {
        Vec3 { x: 1, y: 1, z: 1 }
    }

    /// Whether an integer fits a coordinate.
    pub open spec fn fits(v: int) -> bool {
        i32::MIN <= v <= i32::MAX
    }

    /// Component-wise sum; each sum must fit a coordinate.
    pub fn add(a: Vec3, b: Vec3) -> (r: Vec3)
        requires
            Self::fits(a.x + b.x),
            Self::fits(a.y + b.y),
            Self::fits(a.z + b.z),
        ensures
            r.x == a.x + b.x,
            r.y == a.y + b.y,
            r.z == a.z + b.z,
    {
        Vec3 { x: a.x + b.x, y: a.y + b.y, z: a.z + b.z }
    }

    /// Component-wise difference; each difference must fit a coordinate.
    pub fn sub(a: Vec3, b: Vec3) -> (r: Vec3)
        requires
            Self::fits(a.x - b.x),
            Self::fits(a.y - b.y),
            Self::fits(a.z - b.z),
        ensures
            r.x == a.x - b.x,
            r.y == a.y - b.y,
            r.z == a.z - b.z,
    {
        Vec3 { x: a.x - b.x, y: a.y - b.y, z: a.z - b.z }
    }

    /// Component-wise product; each product must fit a coordinate.
    pub fn scale_vector(a: Vec3, b: Vec3) -> (r: Vec3)
        requires
            Self::fits(a.x * b.x),
            Self::fits(a.y * b.y),
            Self::fits(a.z * b.z),
        ensures
            r.x == a.x * b.x,
            r.y == a.y * b.y,
            r.z == a.z * b.z,
    {
        Vec3 { x: a.x * b.x, y: a.y * b.y, z: a.z * b.z }
    }
}

} // verus!
