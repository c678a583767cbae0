use vstd::prelude::*;

use crate::geometry::{clamp, clamp_spec, dist_sq, distance_sq, PlayArea, Pos};

verus! {

/// A hazard's radius; movement keeps the whole hazard inside the play area.
pub const HOLE_RADIUS: i32 = 40_000;

/// Band at the top of the play area that hazards never enter.
pub const TOP_MARGIN: i32 = 50_000;

/// Default hazard speed, in distance units per second.
pub const HOLE_SPEED: u32 = 200;

/// `r` is the integer square root of `n`.
pub open spec fn is_isqrt(n: int, r: int) -> bool {
    0 <= r && r * r <= n < (r + 1) * (r + 1)
}

/// The integer square root of a non-negative `n`.
pub open spec fn isqrt(n: int) -> int {
    choose|r: int| is_isqrt(n, r)
}

proof fn lemma_isqrt_unique(n: int, r: int, s: int)
    requires
        is_isqrt(n, r),
        is_isqrt(n, s),
    ensures
        r == s,
{
    if r < s {
        assert((r + 1) * (r + 1) <= s * s) by (nonlinear_arith)
            requires 0 <= r < s;
    } else if s < r {
        assert((s + 1) * (s + 1) <= r * r) by (nonlinear_arith)
            requires 0 <= s < r;
    }
}

/// Integer square root by bisection, for values below 2^66.
pub fn integer_sqrt(n: u128) -> (r: u64)
    requires
        n < 0x4_0000_0000_0000_0000,
    ensures
        is_isqrt(n as int, r as int),
        r == isqrt(n as int),
{
    let mut lo: u128 = 0;
    let mut hi: u128 = 0x2_0000_0000;
    assert(hi * hi == 0x4_0000_0000_0000_0000);
    while hi - lo > 1
        invariant
            lo < hi <= 0x2_0000_0000,
            lo * lo <= n < hi * hi,
        decreases hi - lo,
    {
        let mid: u128 = lo + (hi - lo) / 2;
        assert(mid * mid <= 0x2_0000_0000 * 0x2_0000_0000) by (nonlinear_arith)
            requires 0 <= mid <= 0x2_0000_0000;
        if mid * mid <= n {
            lo = mid;
        } else {
            hi = mid;
        }
    }
    assert(hi == lo + 1);
    proof {
        assert(is_isqrt(n as int, lo as int));
        lemma_isqrt_unique(n as int, lo as int, isqrt(n as int));
    }
    lo as u64
}

/// `targets[j]` is the nearest of `targets` to `from`, and no earlier target
/// is as near.
pub open spec fn is_first_nearest(from: Pos, targets: Seq<Pos>, j: int) -> bool {
    &&& 0 <= j < targets.len()
    &&& forall|k: int| 0 <= k < targets.len() ==> dist_sq(from, targets[j]) <= dist_sq(from, #[trigger] targets[k])
    &&& forall|k: int| 0 <= k < j ==> dist_sq(from, targets[j]) < dist_sq(from, #[trigger] targets[k])
}

/// Linear scan for the nearest target; the first minimum wins ties.
pub fn nearest(from: Pos, targets: &Vec<Pos>) -> (r: Option<usize>)
    ensures
        r is None <==> targets@.len() == 0,
        r matches Some(j) ==> is_first_nearest(from, targets@, j as int),
{
    if targets.len() == 0 {
        return None;
    }
    let mut best: usize = 0;
    let mut best_d: i128 = distance_sq(from, targets[0]);
    let mut i: usize = 1;
    while i < targets.len()
        invariant
            1 <= i <= targets.len(),
            best < i,
            best_d == dist_sq(from, targets@[best as int]),
            forall|k: int| 0 <= k < i ==> best_d <= dist_sq(from, #[trigger] targets@[k]),
            forall|k: int| 0 <= k < best ==> best_d < dist_sq(from, #[trigger] targets@[k]),
        decreases targets.len() - i,
    {
        let d = distance_sq(from, targets[i]);
        if d < best_d {
            best = i;
            best_d = d;
        }
        i = i + 1;
    }
    Some(best)
}

/// One axis of a step of `step` units toward a target that is `d` away on
/// this axis and `len` away in all, truncated toward zero.
pub open spec fn axis_step(d: int, step: int, len: int) -> int {
    if d >= 0 {
        d * step / len
    } else {
        -((-d) * step / len)
    }
}

/// The integer square root rounded up.
pub open spec fn isqrt_up(n: int) -> int {
    if isqrt(n) * isqrt(n) == n {
        isqrt(n)
    } else {
        isqrt(n) + 1
    }
}

pub open spec fn abs(d: int) -> int {
    if d >= 0 {
        d
    } else {
        -d
    }
}

pub open spec fn sign(d: int) -> int {
    if d > 0 {
        1
    } else if d < 0 {
        -1
    } else {
        0
    }
}

/// Rounding toward zero would cancel a positive step on both axes; the
/// hazard then moves by the smallest amount along its longer axis instead.
pub open spec fn nudged(p: Pos, t: Pos, step: int) -> bool {
    let n = dist_sq(p, t);
    &&& n > 0
    &&& step > 0
    &&& axis_step(t.x - p.x, step, isqrt_up(n)) == 0
    &&& axis_step(t.y - p.y, step, isqrt_up(n)) == 0
}

/// Where a hazard at `p` ends up after a step of `step` toward `t`, before
/// clamping: the direction to `t` scaled by `step` and added, whether or not
/// that passes `t`. The direction is divided by the distance rounded up, so
/// the step never exceeds `step`. A hazard already on its target stays put.
pub open spec fn unclamped_x(p: Pos, t: Pos, step: int) -> int {
    let n = dist_sq(p, t);
    let dx = t.x - p.x;
    let dy = t.y - p.y;
    if n == 0 {
        p.x as int
    } else if nudged(p, t, step) {
        if abs(dx) >= abs(dy) {
            p.x + sign(dx)
        } else {
            p.x as int
        }
    } else {
        p.x + axis_step(dx, step, isqrt_up(n))
    }
}

pub open spec fn unclamped_y(p: Pos, t: Pos, step: int) -> int {
    let n = dist_sq(p, t);
    let dx = t.x - p.x;
    let dy = t.y - p.y;
    if n == 0 {
        p.y as int
    } else if nudged(p, t, step) {
        if abs(dx) >= abs(dy) {
            p.y as int
        } else {
            p.y + sign(dy)
        }
    } else {
        p.y + axis_step(dy, step, isqrt_up(n))
    }
}

pub open spec fn min_x(area: PlayArea) -> int {
    -area.half_width + HOLE_RADIUS
}

pub open spec fn max_x(area: PlayArea) -> int {
    area.half_width - HOLE_RADIUS
}

pub open spec fn min_y(area: PlayArea) -> int {
    -area.half_height + HOLE_RADIUS
}

pub open spec fn max_y(area: PlayArea) -> int {
    area.half_height - TOP_MARGIN - HOLE_RADIUS
}

/// A step toward `t`, then clamped so that the hazard stays inside the play
/// area and below its top band.
pub open spec fn moved(p: Pos, t: Pos, step: int, area: PlayArea) -> Pos {
    Pos {
        x: clamp_spec(unclamped_x(p, t, step), min_x(area), max_x(area)) as i32,
        y: clamp_spec(unclamped_y(p, t, step), min_y(area), max_y(area)) as i32,
    }
}

fn axis_advance(p: i32, d: i64, step: u64, len: u64) -> (r: i128)
    requires
        len > 0,
        -0x1_0000_0000 <= d <= 0x1_0000_0000,
    ensures
        r == p + axis_step(d as int, step as int, len as int),
{
    let ad: u128 = if d >= 0 { d as u128 } else { (-d) as u128 };
    assert(ad * step <= 0x1_0000_0000 * 0xffff_ffff_ffff_ffff) by (nonlinear_arith)
        requires ad <= 0x1_0000_0000, step <= 0xffff_ffff_ffff_ffff;
    let q: u128 = ad * (step as u128) / (len as u128);
    assert(q as int <= ad as int * step as int) by (nonlinear_arith)
        requires q as int == (ad as int * step as int) / (len as int), len > 0, ad >= 0, step >= 0;
    if d >= 0 {
        p as i128 + q as i128
    } else {
        p as i128 - q as i128
    }
}

/// A step of length `step` from `p` toward `t`, clamped to the hazards' part of
/// the play area.
pub fn pursue(p: Pos, t: Pos, step: u64, area: PlayArea) -> (r: Pos)
    requires
        area.wf(),
    ensures
        r == moved(p, t, step as int, area),
{
    let dx: i64 = t.x as i64 - p.x as i64;
    let dy: i64 = t.y as i64 - p.y as i64;
    let d2 = distance_sq(p, t);
    let ghost ex: int = p.x - t.x;
    let ghost ey: int = p.y - t.y;
    assert(0 <= d2 <= 0x1_0000_0000 * 0x1_0000_0000 + 0x1_0000_0000 * 0x1_0000_0000) by (nonlinear_arith)
        requires d2 == ex * ex + ey * ey, -0x1_0000_0000 <= ex <= 0x1_0000_0000,
            -0x1_0000_0000 <= ey <= 0x1_0000_0000;
    let (ux, uy) = if d2 == 0 {
        (p.x as i128, p.y as i128)
    } else {
        let len = integer_sqrt(d2 as u128);
        assert(len < 0x2_0000_0000) by (nonlinear_arith)
            requires len * len <= d2, d2 < 0x4_0000_0000_0000_0000, len >= 0;
        let up: u64 = if len as u128 * len as u128 == d2 as u128 {
            len
        } else {
            len + 1
        };
        proof {
            assert(len == isqrt(d2 as int));
            if len == 0 {
                assert(len * len == 0) by (nonlinear_arith)
                    requires len == 0;
            }
        }
        let ax = axis_advance(p.x, dx, step, up);
        let ay = axis_advance(p.y, dy, step, up);
        if step > 0 && ax == p.x as i128 && ay == p.y as i128 {
            let adx: i64 = if dx >= 0 { dx } else { -dx };
            let ady: i64 = if dy >= 0 { dy } else { -dy };
            if adx >= ady {
                let sx: i128 = if dx > 0 { 1 } else if dx < 0 { -1 } else { 0 };
                (p.x as i128 + sx, p.y as i128)
            } else {
                let sy: i128 = if dy > 0 { 1 } else if dy < 0 { -1 } else { 0 };
                (p.x as i128, p.y as i128 + sy)
            }
        } else {
            (ax, ay)
        }
    };
    let hw: i128 = area.half_width as i128;
    let hh: i128 = area.half_height as i128;
    let cx = clamp(ux, -hw + HOLE_RADIUS as i128, hw - HOLE_RADIUS as i128);
    let cy = clamp(
        uy,
        -hh + HOLE_RADIUS as i128,
        hh - TOP_MARGIN as i128 - HOLE_RADIUS as i128,
    );
    Pos { x: cx as i32, y: cy as i32 }
}

/// A hazard: where it is and how fast it moves, in units per second.
#[derive(Clone, Copy, Debug, PartialEq, Eq, Structural)]
pub struct Hole {
    pub pos: Pos,
    pub speed: u32,
}

impl Hole {
    /// A hazard at `pos` with the default speed.
    pub fn new(pos: Pos) -> (r: Hole)
        ensures
            r.pos == pos && r.speed == HOLE_SPEED,
    {
        Hole { pos, speed: HOLE_SPEED }
    }
}

impl Default for Hole {
    fn default() -> (r: Hole)
        ensures
            r.pos == (Pos { x: 0, y: 0 }) && r.speed == HOLE_SPEED,
    {
        Hole::new(Pos { x: 0, y: 0 })
    }
}

/// Distance covered in `dt_ms` milliseconds at `speed` units per second,
/// which in thousandths of a unit is exact.
pub open spec fn step_len(speed: u32, dt_ms: u32) -> int {
    speed * dt_ms
}

/// Hazards chase collectibles while any exist, and the player otherwise.
pub open spec fn chase_targets(stars: Seq<Pos>, players: Seq<Pos>) -> Seq<Pos> {
    if stars.len() == 0 {
        players
    } else {
        stars
    }
}

/// The index of the first nearest target.
pub open spec fn first_nearest(from: Pos, targets: Seq<Pos>) -> int {
    choose|j: int| is_first_nearest(from, targets, j)
}

proof fn lemma_first_nearest_unique(from: Pos, targets: Seq<Pos>, j: int)
    requires
        is_first_nearest(from, targets, j),
    ensures
        first_nearest(from, targets) == j,
{
    let k = first_nearest(from, targets);
    assert(is_first_nearest(from, targets, k));
    if k < j {
        assert(dist_sq(from, targets[j]) < dist_sq(from, targets[k]));
        assert(dist_sq(from, targets[k]) <= dist_sq(from, targets[j]));
    } else if j < k {
        assert(dist_sq(from, targets[k]) < dist_sq(from, targets[j]));
        assert(dist_sq(from, targets[j]) <= dist_sq(from, targets[k]));
    }
}

/// Where hazard `h` stands after one tick of pursuit of the nearest of
/// `targets`; with no target it stays where it is.
pub open spec fn pursued_pos(h: Hole, targets: Seq<Pos>, dt_ms: u32, area: PlayArea) -> Pos {
    if targets.len() == 0 {
        h.pos
    } else {
        moved(h.pos, targets[first_nearest(h.pos, targets)], step_len(h.speed, dt_ms), area)
    }
}

/// All hazards after one tick of pursuit.
pub open spec fn pursued_all(holes: Seq<Hole>, targets: Seq<Pos>, dt_ms: u32, area: PlayArea) -> Seq<Hole> {
    Seq::new(holes.len(), |i: int| Hole { pos: pursued_pos(holes[i], targets, dt_ms, area), speed: holes[i].speed })
}

/// Moves every hazard one tick toward its nearest target.
pub fn move_holes(
    holes: &mut Vec<Hole>,
    stars: &Vec<Pos>,
    players: &Vec<Pos>,
    dt_ms: u32,
    area: PlayArea,
)
    requires
        area.wf(),
    ensures
        final(holes)@ == pursued_all(old(holes)@, chase_targets(stars@, players@), dt_ms, area),
{
    let targets: &Vec<Pos> = if stars.len() == 0 {
        players
    } else {
        stars
    };
    let n = holes.len();
    let mut i: usize = 0;
    while i < n
        invariant
            n == old(holes)@.len(),
            holes@.len() == n,
            i <= n,
            area.wf(),
            targets@ == chase_targets(stars@, players@),
            forall|k: int| i <= k < n ==> holes@[k] == old(holes)@[k],
            forall|k: int|
                0 <= k < i ==> #[trigger] holes@[k] == pursued_all(old(holes)@, targets@, dt_ms, area)[k],
        decreases n - i,
    {
        let h = holes[i];
        match nearest(h.pos, targets) {
            Some(j) => {
                assert(0 <= h.speed * dt_ms <= 0xffff_ffff * 0xffff_ffff) by (nonlinear_arith)
                    requires 0 <= h.speed <= 0xffff_ffff, 0 <= dt_ms <= 0xffff_ffff;
                let step: u64 = h.speed as u64 * dt_ms as u64;
                let p = pursue(h.pos, targets[j], step, area);
                holes.set(i, Hole { pos: p, speed: h.speed });
                proof {
                    lemma_first_nearest_unique(h.pos, targets@, j as int);
                }
            },
            None => {},
        }
        i = i + 1;
    }
    assert(holes@ =~= pursued_all(old(holes)@, targets@, dt_ms, area));
}

proof fn lemma_isqrt_exists(n: int)
    requires
        n >= 0,
    ensures
        is_isqrt(n, isqrt(n)),
    decreases n,
{
    if n == 0 {
        assert(is_isqrt(0, 0));
    } else {
        lemma_isqrt_exists(n - 1);
        let r = isqrt(n - 1);
        if (r + 1) * (r + 1) <= n {
            assert((r + 1) * (r + 1) == n);
            assert(n < (r + 2) * (r + 2)) by (nonlinear_arith)
                requires (r + 1) * (r + 1) == n, r >= 0;
            assert(is_isqrt(n, r + 1));
        } else {
            assert(is_isqrt(n, r));
        }
    }
}

/// Moving by `a` along an axis where the target is `d` away, in its direction
/// and by at most twice `d`, never leaves the target farther on that axis,
/// and brings it closer when `a` is neither zero nor `2 d`.
proof fn lemma_axis_move(d: int, a: int)
    requires
        d >= 0 ==> 0 <= a <= 2 * d,
        d < 0 ==> 2 * d <= a <= 0,
    ensures
        (d - a) * (d - a) <= d * d,
        a != 0 && a != 2 * d ==> (d - a) * (d - a) < d * d,
{
    if d >= 0 {
        assert((d - a) * (d - a) <= d * d) by (nonlinear_arith)
            requires 0 <= a <= 2 * d;
        if a != 0 && a != 2 * d {
            assert((d - a) * (d - a) < d * d) by (nonlinear_arith)
                requires 0 < a < 2 * d;
        }
    } else {
        assert((d - a) * (d - a) <= d * d) by (nonlinear_arith)
            requires 2 * d <= a <= 0;
        if a != 0 && a != 2 * d {
            assert((d - a) * (d - a) < d * d) by (nonlinear_arith)
                requires 2 * d < a < 0;
        }
    }
}

proof fn lemma_isqrt_up_bounds(n: int)
    requires
        n >= 1,
    ensures
        isqrt_up(n) >= 1,
        n <= isqrt_up(n) * isqrt_up(n),
{
    lemma_isqrt_exists(n);
    let r = isqrt(n);
    assert(r >= 1) by (nonlinear_arith)
        requires n >= 1, r * r <= n < (r + 1) * (r + 1), r >= 0;
}

/// One rounded axis of a step: it points at the target, it is no longer
/// than its exact share of the step, and it stays under twice the offset
/// when the step is under twice the rounded distance.
proof fn lemma_axis_bound(d: int, step: int, up: int)
    requires
        up >= 1,
        0 <= step,
    ensures
        d >= 0 ==> 0 <= axis_step(d, step, up),
        d < 0 ==> axis_step(d, step, up) <= 0,
        d == 0 ==> axis_step(d, step, up) == 0,
        axis_step(d, step, up) * axis_step(d, step, up) * up * up <= d * d * step * step,
        step < 2 * up && d > 0 ==> axis_step(d, step, up) < 2 * d,
        step < 2 * up && d < 0 ==> axis_step(d, step, up) > 2 * d,
{
    let a = axis_step(d, step, up);
    let e = abs(d);
    let q = e * step / up;
    assert(0 <= q && q * up <= e * step) by (nonlinear_arith)
        requires e >= 0, step >= 0, up >= 1, q == e * step / up;
    assert(a == q || a == -q);
    assert(a * a == q * q) by (nonlinear_arith)
        requires a == q || a == -q;
    assert(q * q * up * up <= e * e * step * step) by (nonlinear_arith)
        requires 0 <= q, q * up <= e * step, up >= 1, e >= 0, step >= 0;
    assert(e * e == d * d) by (nonlinear_arith)
        requires e == d || e == -d;
    if d == 0 {
        assert(q == 0) by (nonlinear_arith)
            requires q == e * step / up, e == 0, up >= 1;
    }
    if step < 2 * up && d != 0 {
        assert(q < 2 * e) by (nonlinear_arith)
            requires q * up <= e * step, step < 2 * up, e >= 1, up >= 1, q >= 0;
    }
}

proof fn lemma_clamp_toward(u: int, c: int, lo: int, hi: int)
    requires
        lo <= c <= hi,
    ensures
        (clamp_spec(u, lo, hi) - c) * (clamp_spec(u, lo, hi) - c) <= (u - c) * (u - c),
{
    let v = clamp_spec(u, lo, hi);
    assert((v - c) * (v - c) <= (u - c) * (u - c)) by (nonlinear_arith)
        requires lo <= c <= hi, v == clamp_spec(u, lo, hi);
}

proof fn lemma_dist_parts(p: Pos, t: Pos)
    ensures
        dist_sq(p, t) == (t.x - p.x) * (t.x - p.x) + (t.y - p.y) * (t.y - p.y),
        dist_sq(p, t) >= 0,
        p != t ==> dist_sq(p, t) >= 1,
{
    let dx = t.x - p.x;
    let dy = t.y - p.y;
    assert(dist_sq(p, t) == dx * dx + dy * dy) by (nonlinear_arith)
        requires dist_sq(p, t) == (p.x - t.x) * (p.x - t.x) + (p.y - t.y) * (p.y - t.y),
            dx == t.x - p.x, dy == t.y - p.y;
    assert(dx * dx + dy * dy >= 0) by (nonlinear_arith);
    if p != t {
        assert(dx != 0 || dy != 0);
        assert(dx * dx + dy * dy >= 1) by (nonlinear_arith)
            requires dx != 0 || dy != 0;
    }
}

/// A step moves a hazard that stands where hazards may stand by at most
/// `step`: the unclamped step is no longer, and clamping toward the hazard's
/// own rectangle never lengthens it.
pub proof fn lemma_step_within_speed(p: Pos, t: Pos, step: int, area: PlayArea)
    requires
        0 <= step,
        min_x(area) <= p.x <= max_x(area),
        min_y(area) <= p.y <= max_y(area),
    ensures
        (unclamped_x(p, t, step) - p.x) * (unclamped_x(p, t, step) - p.x) + (unclamped_y(p, t, step)
            - p.y) * (unclamped_y(p, t, step) - p.y) <= step * step,
        dist_sq(moved(p, t, step, area), p) <= step * step,
{
    let n = dist_sq(p, t);
    let dx = t.x - p.x;
    let dy = t.y - p.y;
    lemma_dist_parts(p, t);
    let ux = unclamped_x(p, t, step);
    let uy = unclamped_y(p, t, step);
    if n == 0 {
        assert((ux - p.x) * (ux - p.x) + (uy - p.y) * (uy - p.y) == 0) by (nonlinear_arith)
            requires ux == p.x, uy == p.y;
        assert(0 <= step * step) by (nonlinear_arith);
    } else if nudged(p, t, step) {
        let gx = ux - p.x;
        let gy = uy - p.y;
        assert(gx * gx + gy * gy <= 1) by (nonlinear_arith)
            requires (gx == 0 && (gy == 1 || gy == -1 || gy == 0)) || (gy == 0 && (gx == 1 || gx
                == -1 || gx == 0));
        assert(1 <= step * step) by (nonlinear_arith)
            requires step >= 1;
    } else {
        lemma_isqrt_up_bounds(n);
        let up = isqrt_up(n);
        lemma_axis_bound(dx, step, up);
        lemma_axis_bound(dy, step, up);
        let ax = axis_step(dx, step, up);
        let ay = axis_step(dy, step, up);
        assert((ax * ax + ay * ay) * (up * up) <= (up * up) * (step * step)) by (nonlinear_arith)
            requires ax * ax * up * up <= dx * dx * step * step, ay * ay * up * up <= dy * dy
                * step * step, n == dx * dx + dy * dy, n <= up * up, step >= 0;
        assert(ax * ax + ay * ay <= step * step) by (nonlinear_arith)
            requires (ax * ax + ay * ay) * (up * up) <= (up * up) * (step * step), up >= 1;
    }
    let q = moved(p, t, step, area);
    lemma_clamp_toward(ux, p.x as int, min_x(area), max_x(area));
    lemma_clamp_toward(uy, p.y as int, min_y(area), max_y(area));
    let cx = clamp_spec(ux, min_x(area), max_x(area));
    let cy = clamp_spec(uy, min_y(area), max_y(area));
    assert(q.x == cx && q.y == cy);
    assert(dist_sq(q, p) == (cx - p.x) * (cx - p.x) + (cy - p.y) * (cy - p.y)) by (nonlinear_arith)
        requires q.x == cx, q.y == cy;
}

/// A hazard ends a step strictly closer to a target that lies where hazards
/// may stand, for any positive step shorter than twice the distance.
pub proof fn lemma_step_closer(p: Pos, t: Pos, step: int, area: PlayArea)
    requires
        p != t,
        0 < step,
        step * step < 4 * dist_sq(p, t),
        min_x(area) <= t.x <= max_x(area),
        min_y(area) <= t.y <= max_y(area),
    ensures
        dist_sq(moved(p, t, step, area), t) < dist_sq(p, t),
{
    let n = dist_sq(p, t);
    let dx = t.x - p.x;
    let dy = t.y - p.y;
    lemma_dist_parts(p, t);
    lemma_isqrt_up_bounds(n);
    let up = isqrt_up(n);
    let ux = unclamped_x(p, t, step);
    let uy = unclamped_y(p, t, step);
    // the moves along each axis, and what is left of the offsets
    let ax = ux - p.x;
    let ay = uy - p.y;
    assert(ux - t.x == -(dx - ax));
    assert(uy - t.y == -(dy - ay));
    if nudged(p, t, step) {
        if abs(dx) >= abs(dy) {
            assert(dx != 0);
            lemma_axis_move(dx, ax);
            lemma_axis_move(dy, ay);
            assert((dx - ax) * (dx - ax) < dx * dx);
        } else {
            assert(dy != 0);
            lemma_axis_move(dx, ax);
            lemma_axis_move(dy, ay);
            assert((dy - ay) * (dy - ay) < dy * dy);
        }
    } else {
        assert(step < 2 * up) by (nonlinear_arith)
            requires step * step < 4 * n, n <= up * up, step >= 0, up >= 1;
        lemma_axis_bound(dx, step, up);
        lemma_axis_bound(dy, step, up);
        lemma_axis_move(dx, ax);
        lemma_axis_move(dy, ay);
        assert(ax != 0 || ay != 0);
    }
    assert((ux - t.x) * (ux - t.x) + (uy - t.y) * (uy - t.y) < n) by (nonlinear_arith)
        requires ux - t.x == -(dx - ax), uy - t.y == -(dy - ay), (dx - ax) * (dx - ax) <= dx * dx,
            (dy - ay) * (dy - ay) <= dy * dy, (dx - ax) * (dx - ax) < dx * dx || (dy - ay) * (dy
            - ay) < dy * dy, n == dx * dx + dy * dy;
    lemma_clamp_toward(ux, t.x as int, min_x(area), max_x(area));
    lemma_clamp_toward(uy, t.y as int, min_y(area), max_y(area));
    let q = moved(p, t, step, area);
    let cx = clamp_spec(ux, min_x(area), max_x(area));
    let cy = clamp_spec(uy, min_y(area), max_y(area));
    assert(q.x == cx && q.y == cy);
    assert(dist_sq(q, t) == (cx - t.x) * (cx - t.x) + (cy - t.y) * (cy - t.y)) by (nonlinear_arith)
        requires q.x == cx, q.y == cy;
}

/// Pursuit converges: a hazard whose only target is a single collectible ends
/// each tick strictly closer to it when the collectible lies where hazards
/// may stand and the tick's step is positive and shorter than twice the
/// distance.
pub proof fn lemma_single_target_converges(
    h: Hole,
    t: Pos,
    dt_ms: u32,
    area: PlayArea,
    after: Pos,
)
    requires
        after == pursued_pos(h, seq![t], dt_ms, area),
        h.pos != t,
        0 < step_len(h.speed, dt_ms),
        step_len(h.speed, dt_ms) * step_len(h.speed, dt_ms) < 4 * dist_sq(h.pos, t),
        min_x(area) <= t.x <= max_x(area),
        min_y(area) <= t.y <= max_y(area),
    ensures
        dist_sq(after, t) < dist_sq(h.pos, t),
{
    assert(is_first_nearest(h.pos, seq![t], 0));
    lemma_first_nearest_unique(h.pos, seq![t], 0);
    lemma_step_closer(h.pos, t, step_len(h.speed, dt_ms), area);
}

} // verus!
