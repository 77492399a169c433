//! Axis-aligned collision rectangles and the overlap test run between the
//! player and every hazard (and the goal) once per simulation tick.
//!
//! A collidable entity carries a rectangle centred on its current position;
//! the rectangle never rotates with the entity's facing. Two rectangles
//! overlap exactly when their projections on both axes overlap.

use vstd::prelude::*;

verus! {

/// Coordinates and half-extents of collision rectangles are kept within this
/// bound so that sums and differences of any two of them fit in `i64`.
pub const COORD_LIMIT: i64 = 0x100_0000_0000;

/// An axis-aligned rectangle: centre `(cx, cy)` and half-extents
/// `(half_w, half_h)` in world units.
#[derive(Clone, Copy, PartialEq, Eq, Structural, Debug)]
pub struct CollisionRect {
    pub cx: i64,
    pub cy: i64,
    pub half_w: i64,
    pub half_h: i64,
}

impl CollisionRect {
    /// All fields within `COORD_LIMIT`, with non-negative half-extents.
    pub open spec fn wf(self) -> bool {
        &&& -COORD_LIMIT <= self.cx <= COORD_LIMIT
        &&& -COORD_LIMIT <= self.cy <= COORD_LIMIT
        &&& 0 <= self.half_w <= COORD_LIMIT
        &&& 0 <= self.half_h <= COORD_LIMIT
    }

    /// The projections of `a` and `b` on the x axis overlap (touching counts).
    pub open spec fn spec_overlap_x(a: CollisionRect, b: CollisionRect) -> bool {
        abs_spec(a.cx - b.cx) <= a.half_w + b.half_w
    }

    /// The projections of `a` and `b` on the y axis overlap (touching counts).
    pub open spec fn spec_overlap_y(a: CollisionRect, b: CollisionRect) -> bool {
        abs_spec(a.cy - b.cy) <= a.half_h + b.half_h
    }

    /// Two rectangles overlap exactly when both axis projections overlap.
    pub open spec fn spec_overlaps(a: CollisionRect, b: CollisionRect) -> bool {
        Self::spec_overlap_x(a, b) && Self::spec_overlap_y(a, b)
    }

    /// Construct a rectangle from a centre and full width/height, as hazard
    /// shapes are sized from their sprite dimensions.
    pub fn new_rectangle(cx: i64, cy: i64, width: i64, height: i64) -> (r: CollisionRect)
        requires
            -COORD_LIMIT <= cx <= COORD_LIMIT,
            -COORD_LIMIT <= cy <= COORD_LIMIT,
            0 <= width <= COORD_LIMIT,
            0 <= height <= COORD_LIMIT,
        ensures
            r.wf(),
            r.cx == cx && r.cy == cy,
            r.half_w == width / 2 && r.half_h == height / 2,
    {
        CollisionRect { cx, cy, half_w: width / 2, half_h: height / 2 }
    }

    /// Re-centre the rectangle on an entity's current position, keeping its
    /// extents; run once per tick to keep shapes synchronised to transforms.
    pub fn with_center(self, cx: i64, cy: i64) -> (r: CollisionRect)
        requires
            -COORD_LIMIT <= cx <= COORD_LIMIT,
            -COORD_LIMIT <= cy <= COORD_LIMIT,
        ensures
            r == (CollisionRect { cx, cy, ..self }),
    {
        CollisionRect { cx, cy, ..self }
    }

    /// The overlap test between two axis-aligned rectangles.
    pub fn is_collided_with(&self, other: &CollisionRect) -> (r: bool)
        requires
            self.wf(),
            other.wf(),
        ensures
            r == Self::spec_overlaps(*self, *other),
    {
        let dx = abs_i64(self.cx - other.cx);
        let dy = abs_i64(self.cy - other.cy);
        dx <= self.half_w + other.half_w && dy <= self.half_h + other.half_h
    }
}

/// Mathematical absolute value.
pub open spec fn abs_spec(x: int) -> int {
    if x < 0 { -x } else { x }
}

/// Absolute value on `i64`, for inputs whose negation cannot overflow.
pub fn abs_i64(x: i64) -> (r: i64)
    requires
        x > i64::MIN,
    ensures
        r == abs_spec(x as int),
{
    if x < 0 { -x } else { x }
}

/// Overlap is symmetric: the test reports the same fact whichever of the two
/// rectangles is taken as the player and which as the hazard.
pub proof fn lemma_overlap_symmetric(a: CollisionRect, b: CollisionRect)
    ensures
        CollisionRect::spec_overlaps(a, b) == CollisionRect::spec_overlaps(b, a),
{
}

/// A rectangle farther than the combined half-extents on either axis never
/// overlaps; within the combined half-extents on both axes it always does.
pub proof fn lemma_overlap_iff_both_axes(a: CollisionRect, b: CollisionRect)
    ensures
        CollisionRect::spec_overlaps(a, b) <==> (abs_spec(a.cx - b.cx) <= a.half_w + b.half_w
            && abs_spec(a.cy - b.cy) <= a.half_h + b.half_h),
        abs_spec(a.cx - b.cx) > a.half_w + b.half_w ==> !CollisionRect::spec_overlaps(a, b),
        abs_spec(a.cy - b.cy) > a.half_h + b.half_h ==> !CollisionRect::spec_overlaps(a, b),
{
}

} // verus!
