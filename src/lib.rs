//! Tick simulation of a top-down arcade survival game: hazards ("holes")
//! chase collectibles ("stars") or the player, entities collide by simple
//! distance tests, and the results drive the player's lives, score and
//! projectiles and the game's phase.
//!
//! Positions are thousandths of a distance unit and times are milliseconds,
//! so that a step of `speed * dt` is exact. Rendering,
//! audio, input devices and the physics that moves the player and the
//! projectiles live outside this library.

pub mod collision;
pub mod economy;
pub mod geometry;
pub mod placement;
pub mod pursuit;
pub mod spawner;
pub mod state;
pub mod world;
