use vstd::prelude::*;

use crate::collision::{hole_positions, positions};
use crate::geometry::{PlayArea, Pos};
use crate::placement::{
    clear_of, find_placement, hole_config, in_region, placed_from_draws, region_nonempty, star_config,
    PlacementConfig,
};
use crate::pursuit::{Hole, HOLE_SPEED};

verus! {

/// A collectible spawn is attempted every two seconds.
pub const STAR_PERIOD_MS: u64 = 2000;

/// A hazard spawn is attempted every three seconds...
pub const HOLE_PERIOD_MS: u64 = 3000;

/// ...while there are at most this many hazards.
pub const MAX_HOLES: usize = 8;

/// Time accumulated toward the next spawn attempt.
#[derive(Clone, Copy, Debug, PartialEq, Eq, Structural)]
pub struct SpawnTimer {
    pub elapsed_ms: u64,
}

pub open spec fn sat_u64(n: int) -> u64 {
    if n > u64::MAX {
        u64::MAX
    } else {
        n as u64
    }
}

impl SpawnTimer {
    pub fn new() -> (r: SpawnTimer)
        ensures
            r.elapsed_ms == 0,
    {
        SpawnTimer { elapsed_ms: 0 }
    }

    /// Adds a tick's time. When the period is reached and spawning is
    /// allowed the timer goes back to zero (any excess is dropped) and an
    /// attempt is due.
    pub fn tick(&mut self, dt_ms: u32, period_ms: u64, allowed: bool) -> (due: bool)
        ensures
            due == (old(self).elapsed_ms + dt_ms >= period_ms && allowed),
            final(self).elapsed_ms == if due {
                0
            } else {
                sat_u64(old(self).elapsed_ms + dt_ms)
            },
    {
        let t: u64 = if self.elapsed_ms > u64::MAX - dt_ms as u64 {
            u64::MAX
        } else {
            self.elapsed_ms + dt_ms as u64
        };
        if t >= period_ms && allowed {
            self.elapsed_ms = 0;
            true
        } else {
            self.elapsed_ms = t;
            false
        }
    }
}

/// One tick of the collectible spawner: when its timer is due it looks for a
/// free place; a failed search forfeits this period.
pub fn spawn_star(timer: &mut SpawnTimer, dt_ms: u32, area: PlayArea, stars: &Vec<Pos>) -> (r:
    Option<Pos>)
    ensures
        ({
            let due = old(timer).elapsed_ms + dt_ms >= STAR_PERIOD_MS;
            &&& final(timer).elapsed_ms == if due {
                0
            } else {
                sat_u64(old(timer).elapsed_ms + dt_ms)
            }
            &&& !due ==> r is None
            &&& due && region_nonempty(area, star_config()) && stars@.len() == 0
                ==> r is Some
            &&& due && region_nonempty(area, star_config()) ==> placed_from_draws(
                area,
                star_config(),
                stars@,
                r,
            )
        }),
        r matches Some(p) ==> in_region(p, area, star_config()) && clear_of(
            p,
            stars@,
            star_config().min_separation,
        ),
{
    if timer.tick(dt_ms, STAR_PERIOD_MS, true) {
        find_placement(area, PlacementConfig::star(), stars)
    } else {
        None
    }
}

/// The position of a spawned hazard.
pub open spec fn hole_pos(r: Option<Hole>) -> Option<Pos> {
    match r {
        Some(h) => Some(h.pos),
        None => None,
    }
}

/// One tick of the hazard spawner: the timer only fires while the hazard cap
/// allows a spawn, and only then is a free place looked for.
pub fn spawn_hole(timer: &mut SpawnTimer, dt_ms: u32, area: PlayArea, holes: &Vec<Hole>) -> (r:
    Option<Hole>)
    ensures
        ({
            let due = old(timer).elapsed_ms + dt_ms >= HOLE_PERIOD_MS && holes@.len() <= MAX_HOLES;
            &&& final(timer).elapsed_ms == if due {
                0
            } else {
                sat_u64(old(timer).elapsed_ms + dt_ms)
            }
            &&& !due ==> r is None
            &&& due && region_nonempty(area, hole_config()) && holes@.len() == 0
                ==> r is Some
            &&& due && region_nonempty(area, hole_config()) ==> placed_from_draws(
                area,
                hole_config(),
                hole_positions(holes@),
                hole_pos(r),
            )
        }),
        r matches Some(h) ==> h.speed == HOLE_SPEED && in_region(h.pos, area, hole_config())
            && clear_of(h.pos, hole_positions(holes@), hole_config().min_separation),
{
    let allowed = holes.len() <= MAX_HOLES;
    if timer.tick(dt_ms, HOLE_PERIOD_MS, allowed) {
        let occupied = positions(holes);
        match find_placement(area, PlacementConfig::hole(), &occupied) {
            Some(p) => Some(Hole::new(p)),
            None => None,
        }
    } else {
        None
    }
}

} // verus!
