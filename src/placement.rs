use vstd::prelude::*;

use crate::geometry::{is_within_radius, within_radius, PlayArea, Pos};

verus! {

/// How many random candidates a placement search draws before it gives up.
pub const MAX_ATTEMPTS: usize = 10;

/// What a placement search needs to know about the kind of entity it places.
#[derive(Clone, Copy, Debug, PartialEq, Eq, Structural)]
pub struct PlacementConfig {
    /// Inset from the left, right and bottom edges of the play area.
    pub radius: u32,
    /// Extra band at the top of the play area where nothing is placed.
    pub top_margin: u32,
    /// A new entity must be at least this far from every occupied position.
    pub min_separation: u32,
}

pub open spec fn star_config() -> PlacementConfig {
    PlacementConfig { radius: 16_000, top_margin: 56_000, min_separation: 16_000 }
}

pub open spec fn hole_config() -> PlacementConfig {
    PlacementConfig { radius: 40_000, top_margin: 56_000, min_separation: 80_000 }
}

impl PlacementConfig {
    /// Collectibles: 16 units inset, a 56 unit top band, 16 units apart.
    pub fn star() -> (r: PlacementConfig)
        ensures
            r == star_config(),
    {
        PlacementConfig { radius: 16_000, top_margin: 56_000, min_separation: 16_000 }
    }

    /// Hazards: their radius of 40 units inset, a 56 unit top band, and twice
    /// their radius apart.
    pub fn hole() -> (r: PlacementConfig)
        ensures
            r == hole_config(),
    {
        PlacementConfig { radius: 40_000, top_margin: 56_000, min_separation: 80_000 }
    }
}

pub open spec fn x_lo(area: PlayArea, cfg: PlacementConfig) -> int {
    -area.half_width + cfg.radius
}

pub open spec fn x_hi(area: PlayArea, cfg: PlacementConfig) -> int {
    area.half_width - cfg.radius
}

pub open spec fn y_lo(area: PlayArea, cfg: PlacementConfig) -> int {
    -area.half_height + cfg.radius
}

pub open spec fn y_hi(area: PlayArea, cfg: PlacementConfig) -> int {
    area.half_height - cfg.radius - cfg.top_margin
}

/// The rectangle that candidates are drawn from.
pub open spec fn in_region(p: Pos, area: PlayArea, cfg: PlacementConfig) -> bool {
    x_lo(area, cfg) <= p.x <= x_hi(area, cfg) && y_lo(area, cfg) <= p.y <= y_hi(area, cfg)
}

pub open spec fn region_nonempty(area: PlayArea, cfg: PlacementConfig) -> bool {
    x_lo(area, cfg) <= x_hi(area, cfg) && y_lo(area, cfg) <= y_hi(area, cfg)
}

/// `p` keeps at least `sep` units from every occupied position.
pub open spec fn clear_of(p: Pos, occupied: Seq<Pos>, sep: u32) -> bool {
    forall|i: int| 0 <= i < occupied.len() ==> !within_radius(p, #[trigger] occupied[i], sep)
}

/// Checks a candidate against every occupied position.
pub fn is_clear(p: Pos, occupied: &Vec<Pos>, sep: u32) -> (r: bool)
    ensures
        r == clear_of(p, occupied@, sep),
{
    let mut i: usize = 0;
    while i < occupied.len()
        invariant
            i <= occupied.len(),
            forall|k: int| 0 <= k < i ==> !within_radius(p, #[trigger] occupied@[k], sep),
        decreases occupied.len() - i,
    {
        if is_within_radius(p, occupied[i], sep) {
            return false;
        }
        i = i + 1;
    }
    true
}

/// The number of candidates that a search examines out of `n` offered.
pub open spec fn attempts(n: int) -> int {
    if n < MAX_ATTEMPTS {
        n
    } else {
        MAX_ATTEMPTS as int
    }
}

/// `r` is the first of the first `MAX_ATTEMPTS` candidates that is clear of
/// every occupied position, or `None` when none of them is.
pub open spec fn picks(candidates: Seq<Pos>, occupied: Seq<Pos>, sep: u32, r: Option<Pos>) -> bool {
    match r {
        Some(p) => exists|i: int|
            0 <= i < attempts(candidates.len() as int) && candidates[i] == p && clear_of(p, occupied, sep)
                && forall|j: int| 0 <= j < i ==> !clear_of(#[trigger] candidates[j], occupied, sep),
        None => forall|j: int|
            0 <= j < attempts(candidates.len() as int) ==> !clear_of(#[trigger] candidates[j], occupied, sep),
    }
}

/// `r` is what a search makes of some `MAX_ATTEMPTS` draws from the
/// placement rectangle.
pub open spec fn placed_from_draws(area: PlayArea, cfg: PlacementConfig, occupied: Seq<Pos>, r: Option<Pos>) -> bool {
    exists|c: Seq<Pos>|
        c.len() == MAX_ATTEMPTS && (forall|k: int| 0 <= k < c.len() ==> in_region(#[trigger] c[k], area, cfg))
            && picks(c, occupied, cfg.min_separation, r)
}

/// Picks the first of at most `MAX_ATTEMPTS` candidates that is clear of every
/// occupied position, or reports that none of them is.
pub fn choose_placement(candidates: &Vec<Pos>, occupied: &Vec<Pos>, sep: u32) -> (r: Option<Pos>)
    ensures
        picks(candidates@, occupied@, sep, r),
{
    let mut i: usize = 0;
    while i < candidates.len() && i < MAX_ATTEMPTS
        invariant
            i <= candidates.len(),
            i <= MAX_ATTEMPTS,
            forall|j: int| 0 <= j < i ==> !clear_of(#[trigger] candidates@[j], occupied@, sep),
        decreases candidates.len() - i,
    {
        if is_clear(candidates[i], occupied, sep) {
            return Some(candidates[i]);
        }
        i = i + 1;
    }
    None
}

/// Relies on rand's `Rng::gen_range` over `thread_rng()`: for a non-empty
/// inclusive range it returns a value inside it (it panics on an empty one).
#[verifier::external_body]
fn random_between(lo: i32, hi: i32) -> (r: i32)
    requires
        lo <= hi,
    ensures
        lo <= r <= hi,
{
    rand::Rng::gen_range(&mut rand::thread_rng(), lo..=hi)
}

/// Draws one candidate uniformly from the placement rectangle.
pub fn sample_candidate(area: PlayArea, cfg: PlacementConfig) -> (r: Pos)
    requires
        region_nonempty(area, cfg),
    ensures
        in_region(r, area, cfg),
{
    let x0: i64 = -(area.half_width as i64) + cfg.radius as i64;
    let x1: i64 = area.half_width as i64 - cfg.radius as i64;
    let y0: i64 = -(area.half_height as i64) + cfg.radius as i64;
    let y1: i64 = area.half_height as i64 - cfg.radius as i64 - cfg.top_margin as i64;
    let x = random_between(x0 as i32, x1 as i32);
    let y = random_between(y0 as i32, y1 as i32);
    Pos { x, y }
}

/// Looks for a random position inside the placement rectangle that keeps the
/// configured separation from every occupied position. It draws
/// `MAX_ATTEMPTS` candidates and takes the first clear one; when none is, or
/// the rectangle is empty, there is no placement this time.
pub fn find_placement(area: PlayArea, cfg: PlacementConfig, occupied: &Vec<Pos>) -> (r: Option<
    Pos,
>)
    ensures
        !region_nonempty(area, cfg) ==> r is None,
        r matches Some(p) ==> in_region(p, area, cfg) && clear_of(p, occupied@, cfg.min_separation),
        region_nonempty(area, cfg) && occupied@.len() == 0 ==> r is Some,
        region_nonempty(area, cfg) ==> placed_from_draws(area, cfg, occupied@, r),
{
    if !(-(area.half_width as i64) + cfg.radius as i64 <= area.half_width as i64 - cfg.radius as i64
        && -(area.half_height as i64) + cfg.radius as i64 <= area.half_height as i64
        - cfg.radius as i64 - cfg.top_margin as i64) {
        return None;
    }
    let mut candidates: Vec<Pos> = Vec::new();
    while candidates.len() < MAX_ATTEMPTS
        invariant
            candidates@.len() <= MAX_ATTEMPTS,
            region_nonempty(area, cfg),
            forall|k: int| 0 <= k < candidates@.len() ==> in_region(#[trigger] candidates@[k], area, cfg),
        decreases MAX_ATTEMPTS - candidates@.len(),
    {
        let c = sample_candidate(area, cfg);
        candidates.push(c);
    }
    let r = choose_placement(&candidates, occupied, cfg.min_separation);
    assert(candidates@.len() == MAX_ATTEMPTS);
    proof {
        if occupied@.len() == 0 {
            assert(clear_of(candidates@[0], occupied@, cfg.min_separation));
        }
    }
    r
}

/// A search never breaks the separation: when no point of the placement
/// rectangle is clear of the occupied positions, the only outcome a search
/// can have is no placement.
pub proof fn lemma_blocked_rectangle_no_placement(
    area: PlayArea,
    cfg: PlacementConfig,
    occupied: Seq<Pos>,
    r: Option<Pos>,
)
    requires
        r matches Some(p) ==> in_region(p, area, cfg) && clear_of(p, occupied, cfg.min_separation),
        forall|q: Pos| in_region(q, area, cfg) ==> !clear_of(q, occupied, cfg.min_separation),
    ensures
        r is None,
{
}

} // verus!
