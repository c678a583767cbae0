use star_hole::collision::{
    hole_pair_collisions, hole_star_collisions, mark_in_box, missile_hits, remove_marked,
};
use star_hole::economy::{HealthUpdate, Player};
use star_hole::geometry::{clamp, distance_sq, is_within_box, is_within_radius, PlayArea, Pos};
use star_hole::placement::{
    choose_placement, find_placement, is_clear, sample_candidate, PlacementConfig,
};
use star_hole::pursuit::{integer_sqrt, move_holes, nearest, pursue, Hole, HOLE_SPEED};
use star_hole::spawner::{spawn_hole, spawn_star, SpawnTimer};
use star_hole::state::{next_state, GameState, StateEvent};
use star_hole::world::{count_marked, index_mask, World};

// positions in whole units, stored in thousandths
fn p(x: i32, y: i32) -> Pos {
    Pos { x: x * 1000, y: y * 1000 }
}

fn area() -> PlayArea {
    PlayArea { half_width: 640_000, half_height: 360_000 }
}

fn playing_world() -> World {
    let mut w = World::new();
    w.apply(StateEvent::StartGame);
    assert_eq!(w.state, GameState::Playing);
    w
}

#[test]
fn hazard_next_to_player_costs_a_life() {
    let mut w = playing_world();
    w.holes.push(Hole::new(p(30, 0)));
    let r = w.tick(16, area(), &Vec::new());
    assert!(r.ran);
    assert_eq!(w.holes.len(), 0);
    assert_eq!(r.holes_hit, 1);
    assert_eq!(w.player.life, 2);
    assert_eq!(w.player_pos, p(0, 0));
    assert_eq!(w.health_icons, 2);
    assert_eq!(w.state, GameState::Playing);
}

#[test]
fn hit_away_from_origin_sends_player_home() {
    let mut w = playing_world();
    w.player_pos = p(200, 100);
    w.holes.push(Hole::new(p(230, 100)));
    w.tick(16, area(), &Vec::new());
    assert_eq!(w.player_pos, p(0, 0));
    assert_eq!(w.player.life, 2);
}

#[test]
fn star_timer_fires_and_resets_to_zero() {
    let mut w = playing_world();
    w.player_pos = p(100_000, 100_000);
    w.star_timer = SpawnTimer { elapsed_ms: 1900 };
    let r = w.tick(200, area(), &Vec::new());
    assert!(r.star_spawned.is_some());
    assert_eq!(w.star_timer.elapsed_ms, 0);
    assert_eq!(w.stars.len(), 1);
}

#[test]
fn star_timer_accumulates_below_period() {
    let mut t = SpawnTimer { elapsed_ms: 1700 };
    let r = spawn_star(&mut t, 200, area(), &Vec::new());
    assert!(r.is_none());
    assert_eq!(t.elapsed_ms, 1900);
}

#[test]
fn hole_spawner_respects_cap() {
    let mut holes = Vec::new();
    for i in 0..9 {
        holes.push(Hole::new(p(-600 + 120 * i, -300)));
    }
    let mut t = SpawnTimer { elapsed_ms: 2990 };
    assert!(spawn_hole(&mut t, 20, area(), &holes).is_none());
    assert_eq!(t.elapsed_ms, 3010);
    holes.pop();
    let mut t = SpawnTimer { elapsed_ms: 2990 };
    let _ = spawn_hole(&mut t, 20, area(), &holes);
    assert_eq!(t.elapsed_ms, 0);
}

#[test]
fn hole_spawn_in_empty_world() {
    let mut t = SpawnTimer { elapsed_ms: 3000 };
    let h = spawn_hole(&mut t, 0, area(), &Vec::new()).expect("open space");
    assert_eq!(h.speed, HOLE_SPEED);
    assert!(h.pos.x >= -600_000 && h.pos.x <= 600_000);
    assert!(h.pos.y >= -320_000 && h.pos.y <= 264_000);
}

#[test]
fn placement_keeps_separation() {
    let occupied = vec![p(0, 0), p(100, 100), p(-200, 50)];
    for _ in 0..200 {
        if let Some(c) = find_placement(area(), PlacementConfig::hole(), &occupied) {
            for o in &occupied {
                assert!(distance_sq(c, *o) >= 80_000 * 80_000);
            }
        }
    }
}

#[test]
fn placement_reports_none_when_crowded() {
    // the star rectangle of this area is the single point (0, -28)
    let tiny = PlayArea { half_width: 16_000, half_height: 44_000 };
    let occupied = vec![p(0, -28)];
    assert_eq!(find_placement(tiny, PlacementConfig::star(), &occupied), None);
    assert_eq!(find_placement(tiny, PlacementConfig::star(), &Vec::new()), Some(p(0, -28)));
}

#[test]
fn placement_in_an_empty_rectangle_is_none() {
    let narrow = PlayArea { half_width: 10_000, half_height: 360_000 };
    assert_eq!(find_placement(narrow, PlacementConfig::star(), &Vec::new()), None);
}

#[test]
fn choose_placement_takes_first_clear_of_ten() {
    let occupied = vec![p(0, 0)];
    let cands = vec![p(1, 1), p(5, 0), p(20, 0), p(30, 0)];
    assert_eq!(choose_placement(&cands, &occupied, 16_000), Some(p(20, 0)));
    let mut crowded = Vec::new();
    for i in 0..10 {
        crowded.push(p(i, 0));
    }
    crowded.push(p(500, 500));
    assert_eq!(choose_placement(&crowded, &occupied, 16_000), None);
    assert!(is_clear(p(16, 0), &occupied, 16_000));
    assert!(!is_clear(p(15, 0), &occupied, 16_000));
}

#[test]
fn sampled_candidates_spread_over_the_rectangle() {
    let cfg = PlacementConfig::star();
    let first = sample_candidate(area(), cfg);
    let mut differs = false;
    for _ in 0..200 {
        let c = sample_candidate(area(), cfg);
        assert!(c.x >= -624_000 && c.x <= 624_000);
        assert!(c.y >= -344_000 && c.y <= 288_000);
        if c != first {
            differs = true;
        }
    }
    assert!(differs);
}

#[test]
fn pursuit_closes_in_on_single_star() {
    let stars = vec![p(300, 200)];
    let mut holes = vec![Hole::new(p(-400, -250))];
    let mut last = distance_sq(holes[0].pos, stars[0]);
    for _ in 0..20 {
        move_holes(&mut holes, &stars, &Vec::new(), 50, area());
        let d = distance_sq(holes[0].pos, stars[0]);
        assert!(d < last);
        last = d;
    }
}

#[test]
fn pursuit_step_exact() {
    // 200 units/s for 500 ms is a 100 unit step along (3, 4)
    assert_eq!(pursue(p(0, 0), p(300, 400), 100_000, area()), p(60, 80));
    assert_eq!(pursue(p(0, 0), p(-300, -400), 100_000, area()), p(-60, -80));
    // on its target a hazard stays put
    assert_eq!(pursue(p(5, 5), p(5, 5), 100_000, area()), p(5, 5));
    // clamped below the top band: 360 - 50 - 40
    assert_eq!(pursue(p(0, 260), p(0, 1000), 100_000, area()), p(0, 270));
    assert_eq!(pursue(p(590, 0), p(1000, 0), 100_000, area()), p(600, 0));
}

#[test]
fn holes_chase_player_without_stars() {
    let mut holes = vec![Hole::new(p(100, 0))];
    move_holes(&mut holes, &Vec::new(), &vec![p(0, 0)], 100, area());
    assert_eq!(holes[0].pos, p(80, 0));
    let mut still = vec![Hole::new(p(100, 0))];
    move_holes(&mut still, &Vec::new(), &Vec::new(), 100, area());
    assert_eq!(still[0].pos, p(100, 0));
}

#[test]
fn holes_prefer_stars_over_player() {
    let mut holes = vec![Hole::new(p(0, 0))];
    move_holes(&mut holes, &vec![p(0, 200)], &vec![p(100, 0)], 100, area());
    assert_eq!(holes[0].pos, p(0, 20));
}

#[test]
fn nearest_first_minimum_wins() {
    let targets = vec![p(10, 0), p(0, 5), p(5, 0), p(-5, 0)];
    assert_eq!(nearest(p(0, 0), &targets), Some(1));
    assert_eq!(nearest(p(0, 0), &Vec::new()), None);
}

#[test]
fn integer_sqrt_values() {
    assert_eq!(integer_sqrt(0), 0);
    assert_eq!(integer_sqrt(1), 1);
    assert_eq!(integer_sqrt(24), 4);
    assert_eq!(integer_sqrt(25), 5);
    assert_eq!(integer_sqrt(2 * 4294967296u128 * 4294967296u128), 6074000999);
}

#[test]
fn three_mutual_holes_destroyed_once_each() {
    let holes = vec![Hole::new(p(0, 0)), Hole::new(p(40, 0)), Hole::new(p(20, 30))];
    assert_eq!(hole_pair_collisions(&holes), vec![0, 1, 2]);
}

#[test]
fn pair_collisions_threshold() {
    let holes = vec![Hole::new(p(0, 0)), Hole::new(p(80, 0)), Hole::new(p(159, 0))];
    assert_eq!(hole_pair_collisions(&holes), vec![1, 2]);
    let m = index_mask(3, &vec![1, 2]);
    assert_eq!(m, vec![false, true, true]);
    assert_eq!(remove_marked(&holes, &m).len(), 1);
}

#[test]
fn hole_eats_close_star() {
    let holes = vec![Hole::new(p(0, 0))];
    let stars = vec![p(41, 0), p(42, 0), p(0, -30)];
    assert_eq!(hole_star_collisions(&holes, &stars), vec![true, false, true]);
}

#[test]
fn player_box_test_is_axis_aligned() {
    let targets = vec![p(47, 47), p(48, 0), p(-47, 10), p(30, 40)];
    assert_eq!(mark_in_box(p(0, 0), &targets), vec![true, false, true, true]);
    assert!(is_within_box(p(0, 0), p(47, -47), 48_000));
    assert!(!is_within_radius(p(0, 0), p(47, 47), 48_000));
}

#[test]
fn missiles_hit_holes() {
    let holes = vec![Hole::new(p(0, 0)), Hole::new(p(500, 0))];
    let missiles = vec![p(39, 0), p(200, 0), p(-20, 10)];
    let r = missile_hits(&missiles, &holes);
    assert_eq!(r.missiles, vec![true, false, true]);
    assert_eq!(r.holes, vec![true, false]);
    assert_eq!(r.explosions, 2);
}

#[test]
fn missile_tick_removes_hole() {
    let mut w = playing_world();
    w.player_pos = p(-500, -300);
    w.holes.push(Hole::new(p(300, 0)));
    let r = w.tick(10, area(), &vec![p(300, 20)]);
    assert_eq!(r.missiles_hit, vec![true]);
    assert_eq!(r.explosions, 1);
    assert_eq!(w.holes.len(), 0);
}

#[test]
fn ten_stars_one_milestone() {
    let mut pl = Player::default();
    let r = pl.resolve_events(10, 0);
    assert_eq!(r.milestones, 1);
    assert_eq!(pl.stars, 10);
    assert_eq!(pl.speed_boosts, 1);
    assert_eq!(pl.life, 4);
    assert_eq!(pl.missiles, 510);
    assert_eq!(r.icons, Some(4));
    let r = pl.resolve_events(9, 0);
    assert_eq!(r.milestones, 0);
    assert_eq!(pl.speed_boosts, 1);
    let r = pl.resolve_events(1, 0);
    assert_eq!(r.milestones, 1);
    assert_eq!(pl.speed_boosts, 2);
}

#[test]
fn stars_one_at_a_time() {
    let mut pl = Player::default();
    let mut milestones = 0;
    for _ in 0..10 {
        if pl.collect_star() {
            milestones += 1;
        }
    }
    assert_eq!(milestones, 1);
    assert_eq!(pl.speed_boosts, 1);
}

#[test]
fn last_life_ends_game_same_tick() {
    let mut pl = Player::default();
    pl.life = 1;
    let r = pl.resolve_events(0, 1);
    assert!(r.game_over);
    assert_eq!(r.icons, None);
    assert_eq!(pl.health_update(), HealthUpdate::GameOver);

    let mut w = playing_world();
    w.player.life = 1;
    w.holes.push(Hole::new(p(20, 20)));
    let r = w.tick(16, area(), &Vec::new());
    assert!(r.economy.game_over);
    assert_eq!(w.state, GameState::GameOver);
    let r = w.tick(16, area(), &Vec::new());
    assert!(!r.ran);
}

#[test]
fn economy_single_events() {
    let mut pl = Player::default();
    pl.collide_hole();
    assert_eq!(pl.life, 2);
    assert_eq!(pl.health_update(), HealthUpdate::Icons(2));
    assert_eq!(pl.add_life(), 3);
    pl.add_missiles();
    assert_eq!(pl.missiles, 510);
    pl.life = i8::MIN;
    pl.collide_hole();
    assert_eq!(pl.life, i8::MIN);
}

#[test]
fn firing_needs_ammo() {
    let mut pl = Player::default();
    assert!(pl.try_fire(true));
    assert_eq!(pl.missiles, 499);
    assert!(!pl.try_fire(false));
    assert_eq!(pl.missiles, 499);
    pl.missiles = 0;
    assert!(!pl.try_fire(true));
    assert_eq!(pl.missiles, 0);
}

#[test]
fn state_transitions() {
    assert_eq!(next_state(GameState::Start, StateEvent::StartGame), GameState::Playing);
    assert_eq!(next_state(GameState::Playing, StateEvent::PauseGame), GameState::Paused);
    assert_eq!(next_state(GameState::Paused, StateEvent::ResumeGame), GameState::Playing);
    assert_eq!(next_state(GameState::Playing, StateEvent::LifeDepleted), GameState::GameOver);
    assert_eq!(next_state(GameState::GameOver, StateEvent::RestartGame), GameState::Start);
    assert_eq!(next_state(GameState::GameOver, StateEvent::PauseGame), GameState::GameOver);
    assert_eq!(next_state(GameState::Paused, StateEvent::LifeDepleted), GameState::Paused);
    assert_eq!(GameState::default(), GameState::Start);
}

#[test]
fn restart_resets_world() {
    let mut w = playing_world();
    w.holes.push(Hole::new(p(300, 0)));
    w.stars.push(p(100, 100));
    w.player.life = 1;
    w.player.stars = 42;
    w.state = GameState::GameOver;
    w.apply(StateEvent::RestartGame);
    assert_eq!(w.state, GameState::Start);
    assert_eq!(w.holes.len(), 0);
    assert_eq!(w.stars.len(), 0);
    assert_eq!(w.player, Player::default());
    assert_eq!(w.health_icons, 3);
}

#[test]
fn paused_world_does_not_move() {
    let mut w = playing_world();
    w.holes.push(Hole::new(p(300, 0)));
    w.apply(StateEvent::PauseGame);
    let r = w.tick(1000, area(), &Vec::new());
    assert!(!r.ran);
    assert_eq!(w.holes[0].pos, p(300, 0));
}

#[test]
fn helpers_exact() {
    assert_eq!(clamp(5, 0, 3), 3);
    assert_eq!(clamp(-5, 0, 3), 0);
    assert_eq!(clamp(2, 0, 3), 2);
    assert_eq!(distance_sq(p(0, 0), p(3, 4)), 25_000_000);
    assert_eq!(count_marked(&vec![true, false, true]), 2);
    assert_eq!(Hole::default().speed, 200);
}

#[test]
fn two_hits_from_last_life_end_the_game() {
    let mut pl = Player::default();
    pl.life = 1;
    let r = pl.resolve_events(0, 2);
    assert_eq!(pl.life, -1);
    assert!(r.game_over);
    assert_eq!(pl.health_update(), HealthUpdate::GameOver);
}

#[test]
fn start_game_while_paused_does_nothing() {
    assert_eq!(next_state(GameState::Paused, StateEvent::StartGame), GameState::Paused);
}

#[test]
fn long_step_passes_near_target() {
    // 200 units/s for 500 ms is 100 units, even with the target 10 units away
    let mut holes = vec![Hole::new(p(0, 0))];
    move_holes(&mut holes, &vec![p(10, 0)], &Vec::new(), 500, area());
    assert_eq!(holes[0].pos, p(100, 0));
    // a diagonal step past a close target never exceeds its length
    let q = pursue(p(0, 0), p(1, 1), 2000, area());
    assert_eq!(q, Pos { x: 1413, y: 1413 });
    assert!(distance_sq(q, p(0, 0)) <= 2000 * 2000);
    assert!(distance_sq(q, p(1, 1)) < distance_sq(p(0, 0), p(1, 1)));
}

#[test]
fn short_tick_still_moves() {
    // 4 ms at 200 units/s is 0.8 units
    let mut holes = vec![Hole::new(p(0, 0))];
    move_holes(&mut holes, &vec![p(100, 0)], &Vec::new(), 4, area());
    assert_eq!(holes[0].pos, Pos { x: 800, y: 0 });
    // a step too small for either axis moves one thousandth along the longer
    assert_eq!(pursue(Pos { x: 0, y: 0 }, Pos { x: 5, y: 3 }, 1, area()), Pos { x: 1, y: 0 });
}
