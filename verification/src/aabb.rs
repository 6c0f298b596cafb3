//! Axis-aligned bounding boxes over integer coordinates.
//!
//! A box is a pair of corner points with `min <= max` componentwise. The
//! builder only ever compares and unions coordinates, so the box corners are
//! plain integers here; the presentation layer converts its floating-point
//! corners through an order-preserving map before calling in.
//!
//! A primitive's centroid (the box center) is carried *doubled*, as
//! `min + max` per axis, so that it stays an exact integer: comparisons and
//! equality of doubled centroids agree with those of the true centers.

use vstd::prelude::*;

verus! {

/// A point in 3-space with integer coordinates.
#[derive(Clone, Copy, PartialEq, Eq, Structural, Debug)]
pub struct Vec3i {
    pub x: i32,
    pub y: i32,
    pub z: i32,
}

impl Vec3i {
    /// The coordinate along axis `a`, with 0, 1, 2 standing for x, y, z.
    /// Any other value reads the z coordinate.
    pub open spec fn axis(self, a: int) -> int {
        if a == 0 {
            self.x as int
        } else if a == 1 {
            self.y as int
        } else {
            self.z as int
        }
    }

    pub fn new(x: i32, y: i32, z: i32) -> (v: Vec3i)
        ensures
            v == (Vec3i { x, y, z }),
    {
        Vec3i { x, y, z }
    }
}

/// An axis-aligned box given by its two extreme corners.
#[derive(Clone, Copy, PartialEq, Eq, Structural, Debug)]
pub struct Bounds {
    pub min: Vec3i,
    pub max: Vec3i,
}

impl Bounds {
    /// A real (non-degenerate-as-a-seed) box: the corners are ordered on
    /// every axis.
    pub open spec fn wf(self) -> bool {
        &&& self.min.x <= self.max.x
        &&& self.min.y <= self.max.y
        &&& self.min.z <= self.max.z
    }

    /// The smallest box containing both `a` and `b`: componentwise minimum
    /// of the low corners and maximum of the high corners.
    pub open spec fn union_spec(a: Bounds, b: Bounds) -> Bounds {
        Bounds {
            min: Vec3i {
                x: if a.min.x <= b.min.x { a.min.x } else { b.min.x },
                y: if a.min.y <= b.min.y { a.min.y } else { b.min.y },
                z: if a.min.z <= b.min.z { a.min.z } else { b.min.z },
            },
            max: Vec3i {
                x: if a.max.x >= b.max.x { a.max.x } else { b.max.x },
                y: if a.max.y >= b.max.y { a.max.y } else { b.max.y },
                z: if a.max.z >= b.max.z { a.max.z } else { b.max.z },
            },
        }
    }

    /// The extent of the box along axis `a`.
    pub open spec fn extent(self, a: int) -> int {
        self.max.axis(a) - self.min.axis(a)
    }

    /// Twice the coordinate of the box center along axis `a`. Doubling keeps
    /// the center exact in integers; order and equality are unchanged.
    pub open spec fn centroid2(self, a: int) -> int {
        self.min.axis(a) + self.max.axis(a)
    }

    /// The axis the box is widest along; x wins ties with y and z, and y
    /// wins ties with z.
    pub open spec fn maximum_extent_spec(self) -> int {
        if self.extent(0) >= self.extent(1) && self.extent(0) >= self.extent(2) {
            0
        } else if self.extent(1) >= self.extent(2) {
            1
        } else {
            2
        }
    }

    pub fn new(min: Vec3i, max: Vec3i) -> (b: Bounds)
        ensures
            b == (Bounds { min, max }),
    {
        Self { min, max }
    }

    /// The zero-sized box at the origin, a placeholder where no geometry is
    /// known yet. It is not a neutral element of `union`, so nothing here
    /// folds over it: range unions start from the first real box instead.
    pub fn empty() -> (b: Bounds)
        ensures
            b == (Bounds { min: Vec3i { x: 0, y: 0, z: 0 }, max: Vec3i { x: 0, y: 0, z: 0 } }),
    {
        Self { min: Vec3i { x: 0, y: 0, z: 0 }, max: Vec3i { x: 0, y: 0, z: 0 } }
    }

    pub fn union(b1: Bounds, b2: Bounds) -> (r: Bounds)
        ensures
            r == Self::union_spec(b1, b2),
            b1.wf() && b2.wf() ==> r.wf(),
    {
        let min = Vec3i {
            x: if b1.min.x <= b2.min.x { b1.min.x } else { b2.min.x },
            y: if b1.min.y <= b2.min.y { b1.min.y } else { b2.min.y },
            z: if b1.min.z <= b2.min.z { b1.min.z } else { b2.min.z },
        };
        let max = Vec3i {
            x: if b1.max.x >= b2.max.x { b1.max.x } else { b2.max.x },
            y: if b1.max.y >= b2.max.y { b1.max.y } else { b2.max.y },
            z: if b1.max.z >= b2.max.z { b1.max.z } else { b2.max.z },
        };
        Bounds { min, max }
    }

    /// The axis of maximum extent. Extents are computed in 64 bits, so the
    /// subtraction cannot overflow for any corner values.
    pub fn maximum_extent(&self) -> (a: usize)
        ensures
            a as int == self.maximum_extent_spec(),
            a < 3,
    {
        let ex: i64 = self.max.x as i64 - self.min.x as i64;
        let ey: i64 = self.max.y as i64 - self.min.y as i64;
        let ez: i64 = self.max.z as i64 - self.min.z as i64;
        if ex >= ey && ex >= ez {
            0
        } else if ey >= ez {
            1
        } else {
            2
        }
    }

    /// Twice the center coordinate along axis `a` (0, 1 or 2), exact in 64
    /// bits.
    pub fn centroid2_axis(&self, a: usize) -> (c: i64)
        requires
            a < 3,
        ensures
            c as int == self.centroid2(a as int),
    {
        if a == 0 {
            self.min.x as i64 + self.max.x as i64
        } else if a == 1 {
            self.min.y as i64 + self.max.y as i64
        } else {
            self.min.z as i64 + self.max.z as i64
        }
    }
}

/// One primitive as the builder sees it: its bounds, the tag of the flat
/// array it lives in (sphere or mesh face), and its index in that array.
#[derive(Clone, Copy, PartialEq, Eq, Structural, Debug)]
pub struct AABB {
    pub bounds: Bounds,
    pub type_tag: u32,
    pub prim_index: u32,
}

} // verus!
