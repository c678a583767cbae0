use vstd::prelude::*;

verus! {

/// A point of the play area, in thousandths of a distance unit.
#[derive(Clone, Copy, Debug, PartialEq, Eq, Structural)]
pub struct Pos {
    pub x: i32,
    pub y: i32,
}

/// Squared Euclidean distance between two points.
pub open spec fn dist_sq(a: Pos, b: Pos) -> int {
    (a.x - b.x) * (a.x - b.x) + (a.y - b.y) * (a.y - b.y)
}

/// Squared Euclidean distance, computed exactly.
pub fn distance_sq(a: Pos, b: Pos) -> (r: i128)
    ensures
        r == dist_sq(a, b),
{
    let dx: i128 = a.x as i128 - b.x as i128;
    let dy: i128 = a.y as i128 - b.y as i128;
    assert(0 <= dx * dx <= 0x1_0000_0000 * 0x1_0000_0000) by (nonlinear_arith)
        requires -0x1_0000_0000 <= dx <= 0x1_0000_0000;
    assert(0 <= dy * dy <= 0x1_0000_0000 * 0x1_0000_0000) by (nonlinear_arith)
        requires -0x1_0000_0000 <= dy <= 0x1_0000_0000;
    dx * dx + dy * dy
}

/// True when the two centres are strictly closer than `radius`.
pub open spec fn within_radius(a: Pos, b: Pos, radius: u32) -> bool {
    dist_sq(a, b) < radius * radius
}

/// True when the centres differ by strictly less than `half` on both axes.
pub open spec fn within_box(a: Pos, b: Pos, half: u32) -> bool {
    -half < a.x - b.x < half && -half < a.y - b.y < half
}

/// Circle test: the distance between the centres is below `radius`.
pub fn is_within_radius(a: Pos, b: Pos, radius: u32) -> (r: bool)
    ensures
        r == within_radius(a, b, radius),
{
    assert(0 <= radius * radius <= 0x1_0000_0000 * 0x1_0000_0000) by (nonlinear_arith)
        requires 0 <= radius <= 0x1_0000_0000;
    let rr: i128 = radius as i128 * radius as i128;
    distance_sq(a, b) < rr
}

/// Axis-aligned box test: both coordinate differences are below `half`.
pub fn is_within_box(a: Pos, b: Pos, half: u32) -> (r: bool)
    ensures
        r == within_box(a, b, half),
{
    let dx: i64 = a.x as i64 - b.x as i64;
    let dy: i64 = a.y as i64 - b.y as i64;
    let h: i64 = half as i64;
    -h < dx && dx < h && -h < dy && dy < h
}

/// The visible play area: an origin-centred rectangle given by its half
/// extents, in thousandths of a unit.
#[derive(Clone, Copy, Debug, PartialEq, Eq, Structural)]
pub struct PlayArea {
    pub half_width: i32,
    pub half_height: i32,
}

impl PlayArea {
    /// Half extents are never negative.
    pub open spec fn wf(self) -> bool {
        self.half_width >= 0 && self.half_height >= 0
    }
}

/// `v` limited to `[lo, hi]`.
pub open spec fn clamp_spec(v: int, lo: int, hi: int) -> int {
    if v < lo {
        lo
    } else if v > hi {
        hi
    } else {
        v
    }
}

/// Limits `v` to `[lo, hi]`. Where the interval is empty, a value below `lo`
/// gives `lo` and any other gives `hi`.
pub fn clamp(v: i128, lo: i128, hi: i128) -> (r: i128)
    ensures
        r == clamp_spec(v as int, lo as int, hi as int),
{
    if v < lo {
        lo
    } else if v > hi {
        hi
    } else {
        v
    }
}

} // verus!
