use vstd::prelude::*;

use crate::collision::{
    kept, lemma_kept_unmarked, near_any, pair_doomed, pair_hits, row_hits, saturate, HOLE_STAR_RANGE,
    MISSILE_RANGE, PLAYER_BOX, hole_positions, hole_pair_collisions, hole_star_collisions, mark_in_box, missile_hits, positions,
    remove_marked,
};
use crate::economy::{life_after_hits, resolved, EconomyReport, Player, START_LIFE};
use crate::geometry::{within_box, PlayArea, Pos};
use crate::pursuit::{chase_targets, move_holes, pursued_all, Hole, HOLE_SPEED};
use crate::placement::{
    clear_of, hole_config, in_region, placed_from_draws, region_nonempty, star_config,
};
use crate::spawner::{
    hole_pos, sat_u64, spawn_hole, spawn_star, SpawnTimer, HOLE_PERIOD_MS, MAX_HOLES, STAR_PERIOD_MS,
};
use crate::state::{gameplay_runs, next_state, next_state_spec, GameState, StateEvent};

verus! {

/// Number of marks that are set.
pub open spec fn count_true(mask: Seq<bool>) -> nat
    decreases mask.len(),
{
    if mask.len() == 0 {
        0
    } else {
        count_true(mask.drop_last()) + if mask.last() {
            1nat
        } else {
            0nat
        }
    }
}

proof fn lemma_count_le_len(mask: Seq<bool>)
    ensures
        count_true(mask) <= mask.len(),
    decreases mask.len(),
{
    if mask.len() > 0 {
        lemma_count_le_len(mask.drop_last());
    }
}

pub fn count_marked(mask: &Vec<bool>) -> (r: usize)
    ensures
        r == count_true(mask@),
{
    let mut r: usize = 0;
    let mut i: usize = 0;
    while i < mask.len()
        invariant
            i <= mask.len(),
            r == count_true(mask@.take(i as int)),
        decreases mask.len() - i,
    {
        assert(mask@.take(i as int + 1).drop_last() == mask@.take(i as int));
        proof {
            lemma_count_le_len(mask@.take(i as int));
        }
        if mask[i] {
            r = r + 1;
        }
        i = i + 1;
    }
    assert(mask@.take(i as int) == mask@);
    r
}

/// A mask of length `n` with exactly the listed indices set.
pub fn index_mask(n: usize, idx: &Vec<usize>) -> (r: Vec<bool>)
    requires
        forall|a: int| 0 <= a < idx@.len() ==> idx@[a] < n,
    ensures
        r@.len() == n,
        forall|k: int| 0 <= k < n ==> r@[k] == idx@.contains(k as usize),
{
    let mut r: Vec<bool> = Vec::new();
    while r.len() < n
        invariant
            r@.len() <= n,
            forall|k: int| 0 <= k < r@.len() ==> !r@[k],
        decreases n - r@.len(),
    {
        r.push(false);
    }
    let mut i: usize = 0;
    while i < idx.len()
        invariant
            i <= idx@.len(),
            r@.len() == n,
            forall|a: int| 0 <= a < idx@.len() ==> idx@[a] < n,
            forall|k: int| 0 <= k < n ==> r@[k] == idx@.take(i as int).contains(k as usize),
        decreases idx.len() - i,
    {
        let ghost prev = r@;
        r.set(idx[i], true);
        proof {
            assert(idx@.take(i as int + 1) == idx@.take(i as int).push(idx@[i as int]));
            assert forall|k: int| 0 <= k < n implies r@[k] == idx@.take(i as int + 1).contains(
                k as usize,
            ) by {
                if idx@.take(i as int).contains(k as usize) {
                    let w = choose|w: int|
                        0 <= w < idx@.take(i as int).len() && idx@.take(i as int)[w] == k as usize;
                    assert(idx@.take(i as int + 1)[w] == k as usize);
                }
                if k as usize == idx@[i as int] {
                    assert(idx@.take(i as int + 1)[i as int] == k as usize);
                }
            }
        }
        i = i + 1;
    }
    assert(idx@.take(i as int) == idx@);
    r
}

/// The phase after a tick's economy step: losing the last life ends the game
/// on that same tick.
pub open spec fn state_after_tick(s: GameState, e: EconomyReport) -> GameState {
    if e.game_over {
        next_state_spec(s, StateEvent::LifeDepleted)
    } else {
        s
    }
}

/// The collectibles once a spawned one is added.
pub open spec fn with_star(stars: Seq<Pos>, spawned: Option<Pos>) -> Seq<Pos> {
    match spawned {
        Some(p) => stars.push(p),
        None => stars,
    }
}

/// The hazards once a spawned one is added.
pub open spec fn with_hole(holes: Seq<Hole>, spawned: Option<Pos>) -> Seq<Hole> {
    match spawned {
        Some(p) => holes.push(Hole { pos: p, speed: HOLE_SPEED }),
        None => holes,
    }
}

/// Collectibles that some hazard swallows.
pub open spec fn eaten_mask(holes: Seq<Hole>, stars: Seq<Pos>) -> Seq<bool> {
    Seq::new(stars.len(), |j: int| near_any(stars[j], hole_positions(holes), HOLE_STAR_RANGE))
}

/// Hazards that collide with another hazard.
pub open spec fn doomed_mask(holes: Seq<Hole>) -> Seq<bool> {
    Seq::new(holes.len(), |k: int| pair_doomed(holes, k))
}

/// Hazards that some projectile hits.
pub open spec fn shot_mask(holes: Seq<Hole>, missiles: Seq<Pos>) -> Seq<bool> {
    Seq::new(holes.len(), |j: int| near_any(holes[j].pos, missiles, MISSILE_RANGE))
}

/// Collectibles inside the player's box.
pub open spec fn star_box_mask(player: Pos, stars: Seq<Pos>) -> Seq<bool> {
    Seq::new(stars.len(), |j: int| within_box(player, stars[j], PLAYER_BOX))
}

/// Hazards inside the player's box.
pub open spec fn hole_box_mask(player: Pos, holes: Seq<Hole>) -> Seq<bool> {
    Seq::new(holes.len(), |j: int| within_box(player, holes[j].pos, PLAYER_BOX))
}

/// The collectibles left after spawning and the hazards' meal.
pub open spec fn stars_mid(stars: Seq<Pos>, holes: Seq<Hole>, ss: Option<Pos>, hs: Option<Pos>) -> Seq<Pos> {
    let s1 = with_star(stars, ss);
    kept(s1, eaten_mask(with_hole(holes, hs), s1))
}

/// The hazards after spawning, their mutual collisions and pursuit; the
/// projectiles are checked against these.
pub open spec fn holes_pursued(
    stars: Seq<Pos>,
    holes: Seq<Hole>,
    player: Pos,
    ss: Option<Pos>,
    hs: Option<Pos>,
    dt_ms: u32,
    area: PlayArea,
) -> Seq<Hole> {
    let h1 = with_hole(holes, hs);
    pursued_all(
        kept(h1, doomed_mask(h1)),
        chase_targets(stars_mid(stars, holes, ss, hs), seq![player]),
        dt_ms,
        area,
    )
}

/// The hazards left after the projectiles.
pub open spec fn holes_mid(
    stars: Seq<Pos>,
    holes: Seq<Hole>,
    player: Pos,
    ss: Option<Pos>,
    hs: Option<Pos>,
    dt_ms: u32,
    area: PlayArea,
    missiles: Seq<Pos>,
) -> Seq<Hole> {
    let h3 = holes_pursued(stars, holes, player, ss, hs, dt_ms, area);
    kept(h3, shot_mask(h3, missiles))
}

pub open spec fn cap(n: nat, limit: int) -> int {
    if n > limit {
        limit
    } else {
        n as int
    }
}

/// Everything that one tick reports to the presentation side.
pub struct TickReport {
    /// Whether the gameplay systems ran at all.
    pub ran: bool,
    pub star_spawned: Option<Pos>,
    pub hole_spawned: Option<Pos>,
    /// Projectiles that hit a hazard and are gone.
    pub missiles_hit: Vec<bool>,
    /// Explosions to show.
    pub explosions: u64,
    /// Collectibles the player picked up.
    pub stars_collected: u32,
    /// Hazards that reached the player.
    pub holes_hit: u32,
    pub economy: EconomyReport,
}

/// The simulated world: the phase, the player, hazards, collectibles and the
/// spawn timers. Projectiles and the player's position are moved by the
/// physics side and handed in.
pub struct World {
    pub state: GameState,
    pub player: Player,
    pub player_pos: Pos,
    pub holes: Vec<Hole>,
    pub stars: Vec<Pos>,
    pub star_timer: SpawnTimer,
    pub hole_timer: SpawnTimer,
    pub health_icons: u8,
}

pub open spec fn origin() -> Pos {
    Pos { x: 0, y: 0 }
}

impl World {
    /// A fresh world, waiting at the start.
    pub fn new() -> (r: World)
        ensures
            r.state == GameState::Start,
            r.fresh(),
    {
        World {
            state: GameState::Start,
            player: Player::default(),
            player_pos: Pos { x: 0, y: 0 },
            holes: Vec::new(),
            stars: Vec::new(),
            star_timer: SpawnTimer::new(),
            hole_timer: SpawnTimer::new(),
            health_icons: START_LIFE as u8,
        }
    }

    /// No hazards and no collectibles; a new player at the origin with
    /// three icons; both timers at zero.
    pub open spec fn fresh(self) -> bool {
        &&& self.player.life == START_LIFE
        &&& self.player.stars == 0
        &&& self.player.speed_boosts == 0
        &&& self.player.missiles == crate::economy::START_MISSILES
        &&& self.player_pos == origin()
        &&& self.holes@.len() == 0
        &&& self.stars@.len() == 0
        &&& self.star_timer.elapsed_ms == 0
        &&& self.hole_timer.elapsed_ms == 0
        &&& self.health_icons == START_LIFE
    }

    fn reset(&mut self)
        ensures
            final(self).fresh(),
            final(self).state == old(self).state,
    {
        self.player = Player::default();
        self.player_pos = Pos { x: 0, y: 0 };
        self.holes = Vec::new();
        self.stars = Vec::new();
        self.star_timer = SpawnTimer::new();
        self.hole_timer = SpawnTimer::new();
        self.health_icons = START_LIFE as u8;
    }

    /// Applies a phase event. Entering `Start`, and starting a game from
    /// `Start`, reset the world.
    pub fn apply(&mut self, e: StateEvent)
        ensures
            final(self).state == next_state_spec(old(self).state, e),
            (final(self).state == GameState::Start && old(self).state != GameState::Start) || (
            old(self).state == GameState::Start && final(self).state == GameState::Playing)
                ==> final(self).fresh(),
            !((final(self).state == GameState::Start && old(self).state != GameState::Start) || (
            old(self).state == GameState::Start && final(self).state == GameState::Playing)) ==> (
            final(self).player == old(self).player && final(self).player_pos == old(self).player_pos
                && final(self).holes@ == old(self).holes@ && final(self).stars@ == old(self).stars@
                && final(self).star_timer == old(self).star_timer && final(self).hole_timer == old(
                self,
            ).hole_timer && final(self).health_icons == old(self).health_icons),
    {
        let from = self.state;
        let to = next_state(from, e);
        if (to == GameState::Start && from != GameState::Start) || (from == GameState::Start
            && to == GameState::Playing) {
            self.reset();
        }
        self.state = to;
    }

    /// One fixed tick. Outside `Playing` nothing runs. While playing, in
    /// order: spawners, hazard-collectible and hazard-hazard collisions,
    /// pursuit, projectile hits, then the player's collisions and the
    /// economy step, whose game-over ends the game on this tick.
    pub fn tick(&mut self, dt_ms: u32, area: PlayArea, missiles: &Vec<Pos>) -> (r: TickReport)
        requires
            area.wf(),
        ensures
            !r.ran ==> final(self).state == old(self).state && final(self).player == old(self).player
                && final(self).player_pos == old(self).player_pos && final(self).holes@ == old(
                self,
            ).holes@ && final(self).stars@ == old(self).stars@ && final(self).star_timer == old(
                self,
            ).star_timer && final(self).hole_timer == old(self).hole_timer,
            r.ran == (old(self).state == GameState::Playing),
            r.ran ==> ({
                let hit_life = life_after_hits(old(self).player.life, r.holes_hit);
                let s2 = stars_mid(old(self).stars@, old(self).holes@, r.star_spawned, r.hole_spawned);
                let h3 = holes_pursued(
                    old(self).stars@,
                    old(self).holes@,
                    old(self).player_pos,
                    r.star_spawned,
                    r.hole_spawned,
                    dt_ms,
                    area,
                );
                let h4 = holes_mid(
                    old(self).stars@,
                    old(self).holes@,
                    old(self).player_pos,
                    r.star_spawned,
                    r.hole_spawned,
                    dt_ms,
                    area,
                    missiles@,
                );
                let sm = star_box_mask(old(self).player_pos, s2);
                let hm = hole_box_mask(old(self).player_pos, h4);
                &&& final(self).stars@ == kept(s2, sm)
                &&& final(self).holes@ == kept(h4, hm)
                &&& r.stars_collected == cap(count_true(sm), u32::MAX - old(self).player.stars)
                &&& r.holes_hit == cap(count_true(hm), u32::MAX as int)
                &&& resolved(old(self).player, r.stars_collected, r.holes_hit, final(self).player, r.economy)
                &&& forall|i: int|
                    0 <= i < missiles@.len() ==> r.missiles_hit@[i] == (row_hits(
                        #[trigger] missiles@[i],
                        hole_positions(h3),
                    ) > 0)
                &&& r.explosions == saturate(pair_hits(missiles@, hole_positions(h3)))
                &&& final(self).state == state_after_tick(old(self).state, r.economy)
                &&& r.economy.game_over == (r.holes_hit > 0 && hit_life <= 0)
                &&& r.economy.reset_position == (r.holes_hit > 0)
                &&& final(self).player_pos == if r.holes_hit > 0 {
                    origin()
                } else {
                    old(self).player_pos
                }
                &&& final(self).player.stars == old(self).player.stars + r.stars_collected
                &&& r.economy.icons matches Some(n) ==> final(self).health_icons == n
                &&& r.economy.icons is None ==> final(self).health_icons == old(self).health_icons
                &&& r.missiles_hit@.len() == missiles@.len()
                &&& forall|k: int|
                    0 <= k < final(self).stars@.len() ==> !within_box(
                        old(self).player_pos,
                        #[trigger] final(self).stars@[k],
                        PLAYER_BOX,
                    )
                &&& forall|k: int|
                    0 <= k < final(self).holes@.len() ==> !within_box(
                        old(self).player_pos,
                        (#[trigger] final(self).holes@[k]).pos,
                        PLAYER_BOX,
                    )
                &&& final(self).star_timer.elapsed_ms == if old(self).star_timer.elapsed_ms + dt_ms
                    >= STAR_PERIOD_MS {
                    0
                } else {
                    sat_u64(old(self).star_timer.elapsed_ms + dt_ms)
                }
                &&& final(self).hole_timer.elapsed_ms == if old(self).hole_timer.elapsed_ms + dt_ms
                    >= HOLE_PERIOD_MS && old(self).holes@.len() <= MAX_HOLES {
                    0
                } else {
                    sat_u64(old(self).hole_timer.elapsed_ms + dt_ms)
                }
                &&& old(self).star_timer.elapsed_ms + dt_ms < STAR_PERIOD_MS ==> r.star_spawned is None
                &&& old(self).star_timer.elapsed_ms + dt_ms >= STAR_PERIOD_MS && region_nonempty(
                    area,
                    star_config(),
                ) ==> placed_from_draws(area, star_config(), old(self).stars@, r.star_spawned)
                &&& old(self).star_timer.elapsed_ms + dt_ms >= STAR_PERIOD_MS && region_nonempty(
                    area,
                    star_config(),
                ) && old(self).stars@.len() == 0 ==> r.star_spawned is Some
                &&& !(old(self).hole_timer.elapsed_ms + dt_ms >= HOLE_PERIOD_MS && old(self).holes@.len()
                    <= MAX_HOLES) ==> r.hole_spawned is None
                &&& old(self).hole_timer.elapsed_ms + dt_ms >= HOLE_PERIOD_MS && old(self).holes@.len()
                    <= MAX_HOLES && region_nonempty(area, hole_config()) ==> placed_from_draws(
                    area,
                    hole_config(),
                    hole_positions(old(self).holes@),
                    r.hole_spawned,
                )
                &&& old(self).hole_timer.elapsed_ms + dt_ms >= HOLE_PERIOD_MS && old(self).holes@.len()
                    <= MAX_HOLES && region_nonempty(area, hole_config()) && old(self).holes@.len() == 0
                    ==> r.hole_spawned is Some
                &&& r.star_spawned matches Some(p) ==> in_region(p, area, star_config()) && clear_of(
                    p,
                    old(self).stars@,
                    star_config().min_separation,
                )
                &&& r.hole_spawned matches Some(p) ==> in_region(p, area, hole_config()) && clear_of(
                    p,
                    hole_positions(old(self).holes@),
                    hole_config().min_separation,
                )
            }),
    {
        if !gameplay_runs(self.state) {
            let economy = EconomyReport {
                milestones: 0,
                reset_position: false,
                game_over: false,
                icons: None,
            };
            return TickReport {
                ran: false,
                star_spawned: None,
                hole_spawned: None,
                missiles_hit: Vec::new(),
                explosions: 0,
                stars_collected: 0,
                holes_hit: 0,
                economy,
            };
        }
        // spawners
        let star_spawned = spawn_star(&mut self.star_timer, dt_ms, area, &self.stars);
        if let Some(p) = star_spawned {
            self.stars.push(p);
        }
        let hole = spawn_hole(&mut self.hole_timer, dt_ms, area, &self.holes);
        let hole_spawned = match hole {
            Some(h) => {
                self.holes.push(h);
                Some(h.pos)
            },
            None => None,
        };
        assert(hole_spawned == hole_pos(hole));
        // hazards against collectibles and against each other
        let ghost s1 = self.stars@;
        let ghost h1 = self.holes@;
        assert(s1 == with_star(old(self).stars@, star_spawned));
        assert(h1 == with_hole(old(self).holes@, hole_spawned));
        let eaten = hole_star_collisions(&self.holes, &self.stars);
        assert(eaten@ =~= eaten_mask(h1, s1));
        self.stars = remove_marked(&self.stars, &eaten);
        assert(self.stars@ == stars_mid(old(self).stars@, old(self).holes@, star_spawned, hole_spawned));
        let doomed = hole_pair_collisions(&self.holes);
        let doomed_marks = index_mask(self.holes.len(), &doomed);
        proof {
            assert forall|k: int| 0 <= k < h1.len() implies doomed_marks@[k] == pair_doomed(h1, k) by {
                if doomed@.contains(k as usize) {
                    let a = choose|a: int| 0 <= a < doomed@.len() && doomed@[a] == k as usize;
                    assert(pair_doomed(h1, doomed@[a] as int));
                }
            }
            assert(doomed_marks@ =~= doomed_mask(h1));
        }
        self.holes = remove_marked(&self.holes, &doomed_marks);
        // pursuit
        let players = vec![self.player_pos];
        assert(self.holes@ == kept(h1, doomed_mask(h1)));
        assert(players@ =~= seq![old(self).player_pos]);
        let ghost s_mid = self.stars@;
        move_holes(&mut self.holes, &self.stars, &players, dt_ms, area);
        // projectiles
        let ghost h3 = self.holes@;
        assert(h3 == pursued_all(kept(h1, doomed_mask(h1)), chase_targets(s_mid, seq![old(self).player_pos]), dt_ms, area));
        assert(h3 == holes_pursued(
            old(self).stars@,
            old(self).holes@,
            old(self).player_pos,
            star_spawned,
            hole_spawned,
            dt_ms,
            area,
        ));
        let hits = missile_hits(missiles, &self.holes);
        proof {
            assert forall|j: int| 0 <= j < h3.len() implies hits.holes@[j] == shot_mask(h3, missiles@)[j] by {
                assert(hole_positions(h3)[j] == h3[j].pos);
            }
            assert(hits.holes@ =~= shot_mask(h3, missiles@));
        }
        self.holes = remove_marked(&self.holes, &hits.holes);
        let ghost s2 = self.stars@;
        let ghost h4 = self.holes@;
        // the player's own collisions
        let star_mask = mark_in_box(self.player_pos, &self.stars);
        assert(star_mask@ =~= star_box_mask(old(self).player_pos, s2));
        let collected_n = count_marked(&star_mask);
        let ghost stars_before = self.stars@;
        self.stars = remove_marked(&self.stars, &star_mask);
        proof {
            assert forall|k: int| 0 <= k < self.stars@.len() implies !within_box(
                old(self).player_pos,
                #[trigger] self.stars@[k],
                PLAYER_BOX,
            ) by {
                lemma_kept_unmarked(stars_before, star_mask@, k);
            }
        }
        let hole_pos = positions(&self.holes);
        let hole_mask = mark_in_box(self.player_pos, &hole_pos);
        proof {
            assert forall|j: int| 0 <= j < h4.len() implies hole_mask@[j] == hole_box_mask(
                old(self).player_pos,
                h4,
            )[j] by {
                assert(hole_pos@[j] == h4[j].pos);
            }
            assert(hole_mask@ =~= hole_box_mask(old(self).player_pos, h4));
        }
        let hit_n = count_marked(&hole_mask);
        let ghost holes_before = self.holes@;
        self.holes = remove_marked(&self.holes, &hole_mask);
        proof {
            assert forall|k: int| 0 <= k < self.holes@.len() implies !within_box(
                old(self).player_pos,
                (#[trigger] self.holes@[k]).pos,
                PLAYER_BOX,
            ) by {
                lemma_kept_unmarked(holes_before, hole_mask@, k);
                let i = choose|i: int|
                    0 <= i < holes_before.len() && !hole_mask@[i] && holes_before[i]
                        == #[trigger] kept(holes_before, hole_mask@)[k];
                assert(hole_pos@[i] == holes_before[i].pos);
            }
        }
        // the score stops at the largest count it can hold
        let room: u32 = u32::MAX - self.player.stars;
        let collected: u32 = if collected_n > room as usize {
            room
        } else {
            collected_n as u32
        };
        let holes_hit: u32 = if hit_n > u32::MAX as usize {
            u32::MAX
        } else {
            hit_n as u32
        };
        let economy = self.player.resolve_events(collected, holes_hit);
        if economy.reset_position {
            self.player_pos = Pos { x: 0, y: 0 };
        }
        if let Some(n) = economy.icons {
            self.health_icons = n;
        }
        if economy.game_over {
            self.state = next_state(self.state, StateEvent::LifeDepleted);
        }
        TickReport {
            ran: true,
            star_spawned,
            hole_spawned,
            missiles_hit: hits.missiles,
            explosions: hits.explosions,
            stars_collected: collected,
            holes_hit,
            economy,
        }
    }
}

/// A tick that starts while playing and whose economy step follows hazard
/// hits that leave no life ends in `GameOver` on that same tick.
pub proof fn lemma_last_life_ends_game_same_tick(
    before: Player,
    collected: u32,
    hits: u32,
    after: Player,
    e: EconomyReport,
)
    requires
        resolved(before, collected, hits, after, e),
        hits > 0,
        life_after_hits(before.life, hits) <= 0,
    ensures
        state_after_tick(GameState::Playing, e) == GameState::GameOver,
{
}

} // verus!
