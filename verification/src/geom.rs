//! Axis-aligned bounding boxes and their overlap test.

use vstd::prelude::*;

verus! {

/// An axis-aligned bounding box, given by its center and its half-extents.
#[derive(Clone, Copy, PartialEq, Eq, Structural, Debug)]
pub struct Aabb {
    /// Center, x coordinate.
    pub x: i64,
    /// Center, y coordinate.
    pub y: i64,
    /// Half of the box width.
    pub half_w: i64,
    /// Half of the box height.
    pub half_h: i64,
}

/// Two boxes overlap when their projections overlap on both axes; boxes
/// that merely touch at an edge still count as overlapping.
pub open spec fn spec_intersects(a: Aabb, b: Aabb) -> bool {
    &&& a.x - a.half_w <= b.x + b.half_w
    &&& b.x - b.half_w <= a.x + a.half_w
    &&& a.y - a.half_h <= b.y + b.half_h
    &&& b.y - b.half_h <= a.y + a.half_h
}

impl Aabb {
    /// The standard axis-aligned overlap test.
    pub fn intersects(&self, other: &Aabb) -> (r: bool)
        ensures
            r == spec_intersects(*self, *other),
    {
        let ax_min: i128 = self.x as i128 - self.half_w as i128;
        let ax_max: i128 = self.x as i128 + self.half_w as i128;
        let ay_min: i128 = self.y as i128 - self.half_h as i128;
        let ay_max: i128 = self.y as i128 + self.half_h as i128;
        let bx_min: i128 = other.x as i128 - other.half_w as i128;
        let bx_max: i128 = other.x as i128 + other.half_w as i128;
        let by_min: i128 = other.y as i128 - other.half_h as i128;
        let by_max: i128 = other.y as i128 + other.half_h as i128;
        ax_min <= bx_max && bx_min <= ax_max && ay_min <= by_max && by_min <= ay_max
    }
}

/// Overlap is symmetric in the two boxes.
pub proof fn lemma_intersects_symmetric(a: Aabb, b: Aabb)
    ensures
        spec_intersects(a, b) == spec_intersects(b, a),
{
}

/// Boxes separated by more than the sum of their half-extents on either
/// axis never overlap.
pub proof fn lemma_separated_boxes_do_not_intersect(a: Aabb, b: Aabb)
    requires
        a.x - b.x > a.half_w + b.half_w || b.x - a.x > a.half_w + b.half_w
            || a.y - b.y > a.half_h + b.half_h || b.y - a.y > a.half_h + b.half_h,
    ensures
        !spec_intersects(a, b),
{
}

} // verus!
