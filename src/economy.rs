use vstd::prelude::*;

verus! {

/// A collectible reached the player.
#[derive(Clone, Copy, Debug, PartialEq, Eq, Structural)]
pub struct PlayerCollectedStar;

/// A hazard reached the player.
#[derive(Clone, Copy, Debug, PartialEq, Eq, Structural)]
pub struct PlayerCollidedHole;

/// Every tenth collectible grants a life.
#[derive(Clone, Copy, Debug, PartialEq, Eq, Structural)]
pub struct PlayerAddLife;

/// Every tenth collectible grants projectiles.
#[derive(Clone, Copy, Debug, PartialEq, Eq, Structural)]
pub struct PlayerAddMissiles;

/// Lives at the start of a game.
pub const START_LIFE: i8 = 3;

/// Projectiles at the start of a game.
pub const START_MISSILES: u32 = 500;

/// Projectiles granted by each milestone.
pub const MISSILE_BONUS: u32 = 10;

/// Collectibles per milestone.
pub const STARS_PER_BONUS: u32 = 10;

/// The player's economy. Its movement speed is the base speed scaled by 1.1
/// once per boost; the presentation side does that floating-point product.
#[derive(Clone, Copy, Debug, PartialEq, Eq, Structural)]
pub struct Player {
    pub life: i8,
    pub stars: u32,
    pub speed_boosts: u32,
    pub missiles: u32,
}

impl Default for Player {
    fn default() -> (r: Player)
        ensures
            r.life == START_LIFE && r.stars == 0 && r.speed_boosts == 0 && r.missiles
                == START_MISSILES,
    {
        Player { life: START_LIFE, stars: 0, speed_boosts: 0, missiles: START_MISSILES }
    }
}

/// Milestones passed while the score goes from `s` to `s + n`.
pub open spec fn milestones(s: int, n: int) -> int {
    (s + n) / 10 - s / 10
}

pub open spec fn sat_u32(n: int) -> u32 {
    if n > u32::MAX {
        u32::MAX
    } else {
        n as u32
    }
}

pub open spec fn sat_i8(n: int) -> i8 {
    if n > i8::MAX {
        i8::MAX
    } else if n < i8::MIN {
        i8::MIN
    } else {
        n as i8
    }
}

/// Health icons shown for a life count: one per life, none below one.
pub open spec fn icons_for(life: i8) -> u8 {
    if life <= 0 {
        0
    } else {
        life as u8
    }
}

/// What the health display does after a hazard hit.
#[derive(Clone, Copy, Debug, PartialEq, Eq, Structural)]
pub enum HealthUpdate {
    /// Life reached zero (or below): the game ends instead of redrawing.
    GameOver,
    /// Redraw this many icons.
    Icons(u8),
}

pub fn icons(life: i8) -> (r: u8)
    ensures
        r == icons_for(life),
{
    if life <= 0 {
        0
    } else {
        life as u8
    }
}

impl Player {
    /// One collectible: the score rises by one, and every tenth one boosts
    /// speed and is a milestone (a life and projectiles follow).
    pub fn collect_star(&mut self) -> (milestone: bool)
        requires
            old(self).stars < u32::MAX,
        ensures
            final(self).stars == old(self).stars + 1,
            milestone == (final(self).stars % 10 == 0),
            final(self).speed_boosts == if milestone {
                sat_u32(old(self).speed_boosts + 1)
            } else {
                old(self).speed_boosts
            },
            final(self).life == old(self).life,
            final(self).missiles == old(self).missiles,
    {
        self.stars = self.stars + 1;
        let milestone = self.stars % STARS_PER_BONUS == 0;
        if milestone && self.speed_boosts < u32::MAX {
            self.speed_boosts = self.speed_boosts + 1;
        }
        milestone
    }

    /// A hazard hit costs a life (the count stops at the type's minimum).
    pub fn collide_hole(&mut self)
        ensures
            final(self).life == sat_i8(old(self).life - 1),
            final(self).stars == old(self).stars,
            final(self).speed_boosts == old(self).speed_boosts,
            final(self).missiles == old(self).missiles,
    {
        if self.life > i8::MIN {
            self.life = self.life - 1;
        }
    }

    /// After a hazard hit: the game ends once no life is left, or the icons are
    /// redrawn.
    pub fn health_update(&self) -> (r: HealthUpdate)
        ensures
            r == if self.life <= 0 {
                HealthUpdate::GameOver
            } else {
                HealthUpdate::Icons(icons_for(self.life))
            },
    {
        if self.life <= 0 {
            HealthUpdate::GameOver
        } else {
            HealthUpdate::Icons(icons(self.life))
        }
    }

    /// A milestone life; returns the number of icons to redraw.
    pub fn add_life(&mut self) -> (r: u8)
        ensures
            final(self).life == sat_i8(old(self).life + 1),
            r == icons_for(final(self).life),
            final(self).stars == old(self).stars,
            final(self).speed_boosts == old(self).speed_boosts,
            final(self).missiles == old(self).missiles,
    {
        if self.life < i8::MAX {
            self.life = self.life + 1;
        }
        icons(self.life)
    }

    /// Milestone projectiles.
    pub fn add_missiles(&mut self)
        ensures
            final(self).missiles == sat_u32(old(self).missiles + MISSILE_BONUS),
            final(self).life == old(self).life,
            final(self).stars == old(self).stars,
            final(self).speed_boosts == old(self).speed_boosts,
    {
        if self.missiles <= u32::MAX - MISSILE_BONUS {
            self.missiles = self.missiles + MISSILE_BONUS;
        } else {
            self.missiles = u32::MAX;
        }
    }

    /// A fire request uses one projectile when any is left; with none left
    /// it is ignored.
    pub fn try_fire(&mut self, fire: bool) -> (fired: bool)
        ensures
            fired == (fire && old(self).missiles > 0),
            final(self).missiles == if fired {
                old(self).missiles - 1
            } else {
                old(self).missiles as int
            },
            final(self).life == old(self).life,
            final(self).stars == old(self).stars,
            final(self).speed_boosts == old(self).speed_boosts,
    {
        if fire && self.missiles > 0 {
            self.missiles = self.missiles - 1;
            true
        } else {
            false
        }
    }
}

/// What one tick's economy step produced.
#[derive(Clone, Copy, Debug, PartialEq, Eq, Structural)]
pub struct EconomyReport {
    /// Milestones reached: each brought a speed boost, a life and projectiles.
    pub milestones: u32,
    /// The player was hit and goes back to the origin.
    pub reset_position: bool,
    /// A hazard hit left no life.
    pub game_over: bool,
    /// The number of health icons to redraw, if they are redrawn.
    pub icons: Option<u8>,
}

pub open spec fn life_after_hits(life: i8, hits: u32) -> i8 {
    sat_i8(life - hits)
}

/// `after` and `r` are what one tick's events do to `before`: `collected`
/// collectibles, then `collided` hazard hits, the health display, and one
/// life and one projectile grant per milestone.
pub open spec fn resolved(before: Player, collected: u32, collided: u32, after: Player, r: EconomyReport) -> bool {
    let m = milestones(before.stars as int, collected as int);
    let hit_life = life_after_hits(before.life, collided);
    &&& r.milestones == m
    &&& after.stars == before.stars + collected
    &&& after.speed_boosts == sat_u32(before.speed_boosts + m)
    &&& after.life == sat_i8(hit_life + m)
    &&& after.missiles == sat_u32(before.missiles + MISSILE_BONUS * m)
    &&& r.reset_position == (collided > 0)
    &&& r.game_over == (collided > 0 && hit_life <= 0)
    &&& r.icons == if m > 0 {
        Some(icons_for(after.life))
    } else if collided > 0 && hit_life > 0 {
        Some(icons_for(hit_life))
    } else {
        None
    }
}

impl Player {
    /// Handles one tick's events in order: collected collectibles, hazard
    /// hits, the health display, milestone lives and milestone projectiles.
    pub fn resolve_events(&mut self, collected: u32, collided: u32) -> (r: EconomyReport)
        requires
            old(self).stars + collected <= u32::MAX,
        ensures
            resolved(*old(self), collected, collided, *final(self), r),
    {
        let ghost s0 = self.stars as int;
        let mut m: u32 = 0;
        let mut k: u32 = 0;
        while k < collected
            invariant
                k <= collected,
                s0 + collected <= u32::MAX,
                self.stars == s0 + k,
                m == milestones(s0, k as int),
                self.speed_boosts == sat_u32(old(self).speed_boosts + m),
                self.life == old(self).life,
                self.missiles == old(self).missiles,
            decreases collected - k,
        {
            let milestone = self.collect_star();
            if milestone {
                m = m + 1;
            }
            k = k + 1;
        }
        let mut h: u32 = 0;
        while h < collided
            invariant
                h <= collided,
                self.life == sat_i8(old(self).life - h),
                self.stars == s0 + collected,
                self.speed_boosts == sat_u32(old(self).speed_boosts + m),
                self.missiles == old(self).missiles,
            decreases collided - h,
        {
            self.collide_hole();
            h = h + 1;
        }
        let mut game_over = false;
        let mut icons: Option<u8> = None;
        let mut u: u32 = 0;
        while u < collided
            invariant
                u <= collided,
                game_over == (u > 0 && self.life <= 0),
                icons == if u > 0 && self.life > 0 {
                    Some(icons_for(self.life))
                } else {
                    None::<u8>
                },
            decreases collided - u,
        {
            match self.health_update() {
                HealthUpdate::GameOver => {
                    game_over = true;
                },
                HealthUpdate::Icons(n) => {
                    icons = Some(n);
                },
            }
            u = u + 1;
        }
        let ghost hit_life = self.life;
        let mut a: u32 = 0;
        while a < m
            invariant
                a <= m,
                self.life == sat_i8(hit_life + a),
                a > 0 ==> icons == Some(icons_for(self.life)),
                a == 0 ==> icons == if collided > 0 && hit_life > 0 {
                    Some(icons_for(hit_life))
                } else {
                    None::<u8>
                },
                self.stars == s0 + collected,
                self.speed_boosts == sat_u32(old(self).speed_boosts + m),
                self.missiles == old(self).missiles,
            decreases m - a,
        {
            let n = self.add_life();
            icons = Some(n);
            a = a + 1;
        }
        let mut g: u32 = 0;
        while g < m
            invariant
                g <= m,
                self.missiles == sat_u32(old(self).missiles + MISSILE_BONUS * g),
                self.stars == s0 + collected,
                self.speed_boosts == sat_u32(old(self).speed_boosts + m),
                self.life == sat_i8(hit_life + m),
            decreases m - g,
        {
            self.add_missiles();
            g = g + 1;
        }
        EconomyReport { milestones: m, reset_position: collided > 0, game_over, icons }
    }
}

/// Ten collectibles in a row, from any score, pass exactly one milestone:
/// one speed boost, one extra life and one projectile grant.
pub proof fn lemma_ten_stars_one_milestone(stars: u32)
    ensures
        milestones(stars as int, 10) == 1,
{
}

} // verus!
