use vstd::prelude::*;
use crate::geometry::Vec3;

verus! {

/// A point measured in half units: each coordinate is twice its world
/// coordinate, so that the corners and bounds of a box of odd size stay exact.
#[derive(Clone, Copy, Debug, PartialEq, Eq, Structural)]
pub struct HalfPoint {
    pub x: i64,
    pub y: i64,
    pub z: i64,
}

/// An opaque label carried by a collider; `NoTag` is the only label so far.
#[derive(Clone, Copy, Debug, PartialEq, Eq, Structural)]
pub enum ECollisionTag {
    NoTag,
}

/// What a collider is for.
#[derive(Clone, Copy, Debug, PartialEq, Eq, Structural)]
pub enum ECollisionType {
    /// Used to restrict physical movement and prevent clipping.
    Solid,
    /// Used to listen for objects entering or exiting bounds.
    Trigger,
}

/// An axis-aligned box: an origin (its centre), a size, a type and a tag.
///
/// Its half-extents are always exactly half of its size. They are reported in
/// half units (see `HalfPoint`), where they equal the size itself.
#[derive(Clone, Copy, Debug)]
pub struct ColliderData {
    _origin: Vec3,
    _size: Vec3,
    _tag: ECollisionTag,
    _collisionType: ECollisionType,
}

/// Low end, in half units, of an interval with centre `o` and length `s`.
pub open spec fn lo2(o: i32, s: i32) -> int {
    2 * o - s
}

/// High end, in half units, of an interval with centre `o` and length `s`.
pub open spec fn hi2(o: i32, s: i32) -> int {
    2 * o + s
}

/// Whether a corner of the box with this origin and size lies within the
/// rectangle of `b` (x and y only).
pub open spec fn corner_hits(origin: Vec3, size: Vec3, b: ColliderData) -> bool {
    let (x0, x1) = (lo2(origin.x, size.x), hi2(origin.x, size.x));
    let (y0, y1) = (lo2(origin.y, size.y), hi2(origin.y, size.y));
    let in_x = |x: int| b.min_x2() <= x <= b.max_x2();
    let in_y = |y: int| b.min_y2() <= y <= b.max_y2();
    (in_x(x0) && in_y(y1)) || (in_x(x1) && in_y(y1)) || (in_x(x1) && in_y(y0)) || (in_x(x0)
        && in_y(y0))
}

impl ColliderData {
    pub closed spec fn spec_origin(&self) -> Vec3 {
        self._origin
    }

    pub closed spec fn spec_size(&self) -> Vec3 {
        self._size
    }

    pub closed spec fn spec_tag(&self) -> ECollisionTag {
        self._tag
    }

    pub closed spec fn spec_type(&self) -> ECollisionType {
        self._collisionType
    }

    /// Least x of the box, in half units.
    pub open spec fn min_x2(&self) -> int {
        lo2(self.spec_origin().x, self.spec_size().x)
    }

    /// Greatest x of the box, in half units.
    pub open spec fn max_x2(&self) -> int {
        hi2(self.spec_origin().x, self.spec_size().x)
    }

    /// Least y of the box, in half units.
    pub open spec fn min_y2(&self) -> int {
        lo2(self.spec_origin().y, self.spec_size().y)
    }

    /// Greatest y of the box, in half units.
    pub open spec fn max_y2(&self) -> int {
        hi2(self.spec_origin().y, self.spec_size().y)
    }

    /// z of every corner, in half units.
    pub open spec fn corner_z2(&self) -> int {
        hi2(self.spec_origin().z, self.spec_size().z)
    }

    /// Whether `p` has the given coordinates (in half units).
    pub open spec fn is_point(p: HalfPoint, x: int, y: int, z: int) -> bool {
        p.x == x && p.y == y && p.z == z
    }

    /// Whether a point lies within the box's rectangle in x and y.
    pub open spec fn contains_point(&self, p: HalfPoint) -> bool {
        &&& self.min_x2() <= p.x <= self.max_x2()
        &&& self.min_y2() <= p.y <= self.max_y2()
    }

    /// Whether a corner of `a` lies within the rectangle of `b`.
    pub open spec fn corners_touch(a: ColliderData, b: ColliderData) -> bool {
        corner_hits(a.spec_origin(), a.spec_size(), b)
    }

    /// The same box with its origin moved.
    pub open spec fn moved_to(&self, origin: Vec3, r: ColliderData) -> bool {
        &&& r.spec_origin() == origin
        &&& r.spec_size() == self.spec_size()
        &&& r.spec_tag() == self.spec_tag()
        &&& r.spec_type() == self.spec_type()
    }

    pub fn Create(
        position: Vec3,
        size: Vec3,
        collisionType: ECollisionType,
        tag: ECollisionTag,
    ) -> (r: Self)
        ensures
            r.spec_origin() == position,
            r.spec_size() == size,
            r.spec_type() == collisionType,
            r.spec_tag() == tag,
    {
        ColliderData { _origin: position, _size: size, _tag: tag, _collisionType: collisionType }
    }

    pub fn Origin(&self) -> (r: Vec3)
        ensures
            r == self.spec_origin(),
    {
        self._origin
    }

    pub fn Size(&self) -> (r: Vec3)
        ensures
            r == self.spec_size(),
    {
        self._size
    }

    pub fn Tag(&self) -> (r: ECollisionTag)
        ensures
            r == self.spec_tag(),
    {
        self._tag
    }

    pub fn Type(&self) -> (r: ECollisionType)
        ensures
            r == self.spec_type(),
    {
        self._collisionType
    }

    /// Half-extents in half units: equal to the size, that is, the
    /// half-extents are exactly half of the size.
    pub fn Extents(&self) -> (r: HalfPoint)
        ensures
            r.x == self.spec_size().x,
            r.y == self.spec_size().y,
            r.z == self.spec_size().z,
    {
        HalfPoint { x: self._size.x as i64, y: self._size.y as i64, z: self._size.z as i64 }
    }

    /// Corners in half units: top left, top right, bottom right, bottom left.
    pub fn GetCorners(&self) -> (r: (HalfPoint, HalfPoint, HalfPoint, HalfPoint))
        ensures
            Self::is_point(r.0, self.min_x2(), self.max_y2(), self.corner_z2()),
            Self::is_point(r.1, self.max_x2(), self.max_y2(), self.corner_z2()),
            Self::is_point(r.2, self.max_x2(), self.min_y2(), self.corner_z2()),
            Self::is_point(r.3, self.min_x2(), self.min_y2(), self.corner_z2()),
    {
        let ox = 2 * (self._origin.x as i64);
        let oy = 2 * (self._origin.y as i64);
        let oz = 2 * (self._origin.z as i64);
        let ex = self._size.x as i64;
        let ey = self._size.y as i64;
        let ez = self._size.z as i64;
        (
            HalfPoint { x: ox - ex, y: oy + ey, z: oz + ez },
            HalfPoint { x: ox + ex, y: oy + ey, z: oz + ez },
            HalfPoint { x: ox + ex, y: oy - ey, z: oz + ez },
            HalfPoint { x: ox - ex, y: oy - ey, z: oz + ez },
        )
    }

    /// Bounds in half units: (min x, max x, min y, max y).
    pub fn GetMinMaxBounds(&self) -> (r: (i64, i64, i64, i64))
        ensures
            r.0 == self.min_x2(),
            r.1 == self.max_x2(),
            r.2 == self.min_y2(),
            r.3 == self.max_y2(),
    {
        let corners = self.GetCorners();
        (corners.0.x, corners.1.x, corners.3.y, corners.1.y)
    }

    pub fn UpdateOrigin(&mut self, newPosition: Vec3)
        ensures
            old(self).moved_to(newPosition, *final(self)),
    {
        self._origin = newPosition;
    }

    /// Sets the size; the half-extents follow it.
    pub fn UpdateSize(&mut self, newSize: Vec3)
        ensures
            final(self).spec_size() == newSize,
            final(self).spec_origin() == old(self).spec_origin(),
            final(self).spec_tag() == old(self).spec_tag(),
            final(self).spec_type() == old(self).spec_type(),
    {
        self._size = newSize;
    }

    /// Whether `point` (in half units) lies within the collider's rectangle;
    /// z is not considered.
    pub fn DoesPointIntersectBounds(point: HalfPoint, collider: &ColliderData) -> (r: bool)
        ensures
            r == collider.contains_point(point),
    {
        let b = collider.GetMinMaxBounds();
        let x = point.x;
        let y = point.y;
        x >= b.0 && x <= b.1 && y >= b.2 && y <= b.3
    }

    /// Whether any corner of `a` lies within the rectangle of `b`.
    ///
    /// This is a corner test, not a full overlap test: a box `b` that lies
    /// wholly inside `a` without holding any of its corners is not reported.
    pub fn DoBoundsCollide(a: &ColliderData, b: &ColliderData) -> (r: bool)
        ensures
            r == Self::corners_touch(*a, *b),
    {
        let corners = a.GetCorners();
        Self::DoesPointIntersectBounds(corners.0, b) || Self::DoesPointIntersectBounds(corners.1, b)
            || Self::DoesPointIntersectBounds(corners.2, b) || Self::DoesPointIntersectBounds(
            corners.3,
            b,
        )
    }
}

} // verus!
