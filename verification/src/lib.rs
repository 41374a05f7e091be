//! Simulation core of a single-screen arcade cannon game.
//!
//! A cannon at the bottom of a square playfield fires bullets upward into a
//! grid of destructible bricks.  Bullets bounce off the field boundaries and
//! off bricks, struck bricks lose health and eventually crumble, impacts and
//! destructions emit decorative particles, and a score accumulates.
//!
//! All quantities are held in fixed point so that every step of the per-frame
//! update is plain integer arithmetic: world coordinates are scaled by 1000
//! (the playfield spans [-1000, 1000] in both axes), time is in milliseconds,
//! angles are in milliradians, and colour channels run from 0 to 1000.
//! Rendering and input capture are collaborators that live outside this
//! crate; they read the simulation state and inject intent flags.

pub mod color;
pub mod entities;
pub mod fixed;
pub mod game;
pub mod grid;
pub mod laws;
pub mod params;
pub mod rng;
pub mod weapon;
