//! Tunable constants of the game, in the fixed-point units of the crate:
//! lengths are world coordinates scaled by 1000, times are milliseconds,
//! angles are milliradians, speeds are scaled coordinates per second.

use vstd::prelude::*;

verus! {

/// Length of the cannon barrel.
pub const CANNON_LENGTH: i64 = 100;
/// Height at which the cannon pivot sits.
pub const CANNON_Y: i64 = -900;
/// Radius of a bullet.
pub const BALL_RADIUS: i64 = 10;
/// Reference muzzle speed.
pub const BALL_SPEED: i64 = 1000;
/// Width of one brick.
pub const BRICK_WIDTH: i64 = 100;
/// Height of one brick.
pub const BRICK_HEIGHT: i64 = 100;
/// Gap between neighbouring bricks in the initial grid.
pub const BRICK_SPACING: i64 = 10;
/// Largest random positional jitter applied to a brick.
pub const MAX_OFFSET: i64 = 20;
/// Health every brick starts with.
pub const BRICK_START_HEALTH: u32 = 5;

/// Angular speed of keyboard aiming, in milliradians per second
/// (two pi radians per second).
pub const ROTATION_SPEED: i64 = 6283;
/// Half pi in milliradians; the aim angle is clamped to [-HALF_PI, HALF_PI].
pub const HALF_PI_MRAD: i64 = 1571;
/// Pi in milliradians.
pub const PI_MRAD: i64 = 3142;
/// Two pi in milliradians.
pub const TWO_PI_MRAD: i64 = 6283;

/// Friction decay per millisecond, in parts per million: bullets keep
/// 0.9^(1/1000) of their velocity each millisecond, so 0.9 of it per second.
pub const FRICTION_PPM_PER_MS: i64 = 999895;
/// Parts-per-million scale.
pub const PPM: i64 = 1000000;

/// How long a struck brick flashes, in milliseconds.
pub const HIT_EFFECT_DURATION: u32 = 100;
/// Lifespan of a particle, in milliseconds.
pub const PARTICLE_LIFETIME: u32 = 500;
/// Largest speed of a spawned particle.
pub const PARTICLE_SPEED: i64 = 200;

/// Particles in a muzzle-flash burst.
pub const MUZZLE_BURST: u32 = 5;
/// Particles in an impact burst.
pub const IMPACT_BURST: u32 = 3;
/// Particles in a destruction burst.
pub const DESTROY_BURST: u32 = 10;

/// Rows of bricks in the initial grid.
pub const NUM_ROWS: usize = 10;
/// Columns of bricks in the initial grid.
pub const NUM_COLS: usize = 10;

} // verus!
