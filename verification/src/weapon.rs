//! Firing strategies.
//!
//! A weapon is a cooldown state machine with two operations: `update`
//! decays the cooldown each frame, and `try_fire` yields a bullet exactly
//! when the cooldown has run out.  What a successful shot looks like is the
//! strategy's own business, declared through its `fired_bullet_ok` and
//! `reset_ok` specifications, so the simulation stays agnostic to the
//! weapon variant.  The implemented variant is a simple cannon with random
//! spread, random muzzle speed and a random cooldown.

use vstd::prelude::*;

verus! {

use crate::entities::{bullet_wf, Bullet};
use crate::fixed::{
    cos_mrad, mul_unit, sin_mrad, spec_abs, spec_cos_mrad, spec_mul_unit, spec_sin_mrad,
};
use crate::params::{BALL_RADIUS, BALL_SPEED, CANNON_LENGTH, HALF_PI_MRAD};
use crate::rng::{spec_next, spec_range, Rng};

/// A firing strategy with a cooldown.
pub trait Weapon: Sized {
    /// Remaining cooldown in milliseconds; firing is possible only at 0.
    spec fn cooldown_ms(&self) -> u32;

    /// The weapon's tuning parameters are usable.
    spec fn wf(&self) -> bool;

    /// `self` and `other` share the same tuning parameters.
    spec fn same_config(&self, other: &Self) -> bool;

    /// What this strategy promises of a bullet fired from pivot
    /// `(cannon_x, cannon_y)` at `cannon_angle`, drawing randomness from
    /// generator state `rng_state`.
    spec fn fired_bullet_ok(
        &self,
        cannon_x: int,
        cannon_y: int,
        cannon_angle: int,
        rng_state: u64,
        b: Bullet,
    ) -> bool;

    /// What this strategy promises of the cooldown set right after firing
    /// with generator state `rng_state`.
    spec fn reset_ok(&self, rng_state: u64, cooldown: u32) -> bool;

    /// The generator state a successful shot leaves behind, as a function
    /// of the state it found.
    spec fn rng_after_fire(&self, rng_state: u64) -> u64;

    /// Tick the cooldown down by `delta_time` milliseconds, stopping at 0.
    fn update(&mut self, delta_time: u32)
        requires
            old(self).wf(),
        ensures
            final(self).wf(),
            final(self).same_config(old(self)),
            final(self).cooldown_ms() == (if old(self).cooldown_ms() > delta_time {
                old(self).cooldown_ms() - delta_time
            } else {
                0int
            }),
    ;

    /// Fire if and only if the cooldown has run out.  A failed call has no
    /// effect at all; a successful one yields a well-formed bullet of
    /// health 1 as `fired_bullet_ok` describes, and rearms the cooldown as
    /// `reset_ok` describes.
    fn try_fire(&mut self, cannon_x: i64, cannon_y: i64, cannon_angle: i64, rng: &mut Rng) -> (b:
        Option<Bullet>)
        requires
            old(self).wf(),
            -HALF_PI_MRAD <= cannon_angle <= HALF_PI_MRAD,
            spec_abs(cannon_x as int) <= 900,
            spec_abs(cannon_y as int) <= 900,
        ensures
            final(self).wf(),
            final(self).same_config(old(self)),
            b is None <==> old(self).cooldown_ms() > 0,
            b is None ==> *final(self) == *old(self) && *final(rng) == *old(rng),
            b matches Some(bl) ==> bullet_wf(bl) && bl.health == 1 && old(self).fired_bullet_ok(
                cannon_x as int,
                cannon_y as int,
                cannon_angle as int,
                old(rng).state,
                bl,
            ) && old(self).reset_ok(old(rng).state, final(self).cooldown_ms())
                && final(rng).state == old(self).rng_after_fire(old(rng).state),
    ;
}

/// The exact bullet `SimpleCannon::try_fire` builds from pivot
/// `(cx, cy)`, aim `angle` and generator state `st`: the unique bullet
/// satisfying `fired_bullet_ok`.
pub open spec fn spec_shot(c: SimpleCannon, cx: int, cy: int, angle: int, st: u64) -> Bullet {
    let off = spec_range(st, -c.angle_spread as int, c.angle_spread as int);
    let fa = angle + off;
    let spd = spec_range(spec_next(st), c.speed_min as int, c.speed_max as int);
    let s = spec_sin_mrad(fa);
    let co = spec_cos_mrad(fa);
    Bullet {
        x: (-(cx + spec_mul_unit(CANNON_LENGTH as int, s))) as i64,
        y: (cy + spec_mul_unit(CANNON_LENGTH as int, co)) as i64,
        dx: (-spec_mul_unit(spd, s)) as i64,
        dy: spec_mul_unit(spd, co) as i64,
        radius: c.bullet_radius,
        health: 1,
    }
}

/// A plain cannon: one bullet per shot, uniform random spread around the
/// aim angle, uniform random muzzle speed, uniform random cooldown.
#[derive(Clone, Copy, PartialEq, Eq, Structural, Debug)]
pub struct SimpleCannon {
    /// Remaining cooldown in milliseconds.
    pub cooldown_timer: u32,
    /// Shortest cooldown set after a shot.
    pub cooldown_min: u32,
    /// Longest cooldown set after a shot.
    pub cooldown_max: u32,
    /// Largest deviation of the firing angle from the aim, milliradians.
    pub angle_spread: i64,
    /// Slowest muzzle speed.
    pub speed_min: i64,
    /// Fastest muzzle speed.
    pub speed_max: i64,
    /// Radius given to fired bullets.
    pub bullet_radius: i64,
}

impl SimpleCannon {
    /// The cannon of the game: cooldown 5 to 15 ms, spread of a tenth of a
    /// radian, muzzle speed 0.8 to 1.2 times the reference speed.
    pub fn new() -> (c: SimpleCannon)
        ensures
            c.wf(),
            c.cooldown_timer == 0,
            c.cooldown_min == 5,
            c.cooldown_max == 15,
            c.angle_spread == 100,
            c.speed_min == 800,
            c.speed_max == 1200,
            c.bullet_radius == 10,
    {
        SimpleCannon {
            cooldown_timer: 0,
            cooldown_min: 5,
            cooldown_max: 15,
            angle_spread: 100,
            speed_min: 4 * BALL_SPEED / 5,
            speed_max: 6 * BALL_SPEED / 5,
            bullet_radius: BALL_RADIUS,
        }
    }
}

impl Weapon for SimpleCannon {
    open spec fn cooldown_ms(&self) -> u32 {
        self.cooldown_timer
    }

    open spec fn wf(&self) -> bool {
        &&& self.cooldown_timer <= self.cooldown_max
        &&& 0 < self.cooldown_min <= self.cooldown_max <= 60000
        &&& 0 <= self.angle_spread <= 1571
        &&& 0 <= self.speed_min <= self.speed_max <= 2000
        &&& 0 < self.bullet_radius <= 500
    }

    open spec fn same_config(&self, other: &SimpleCannon) -> bool {
        &&& self.cooldown_min == other.cooldown_min
        &&& self.cooldown_max == other.cooldown_max
        &&& self.angle_spread == other.angle_spread
        &&& self.speed_min == other.speed_min
        &&& self.speed_max == other.speed_max
        &&& self.bullet_radius == other.bullet_radius
    }

    /// The bullet leaves the muzzle tip with speed `speed_min ..= speed_max`
    /// along the firing direction `cannon_angle` plus a random offset within
    /// the spread.  The horizontal coordinate of the tip is mirrored, the
    /// coordinate convention of the game.
    open spec fn fired_bullet_ok(
        &self,
        cannon_x: int,
        cannon_y: int,
        cannon_angle: int,
        rng_state: u64,
        b: Bullet,
    ) -> bool {
        let off = spec_range(rng_state, -self.angle_spread as int, self.angle_spread as int);
        let fa = cannon_angle + off;
        let spd = spec_range(spec_next(rng_state), self.speed_min as int, self.speed_max as int);
        let s = spec_sin_mrad(fa);
        let c = spec_cos_mrad(fa);
        &&& b.x == -(cannon_x + spec_mul_unit(CANNON_LENGTH as int, s))
        &&& b.y == cannon_y + spec_mul_unit(CANNON_LENGTH as int, c)
        &&& b.dx == -spec_mul_unit(spd, s)
        &&& b.dy == spec_mul_unit(spd, c)
        &&& b.radius == self.bullet_radius
        &&& b.health == 1
    }

    /// A shot takes exactly three draws: spread, speed, cooldown.
    open spec fn rng_after_fire(&self, rng_state: u64) -> u64 {
        spec_next(spec_next(spec_next(rng_state)))
    }

    /// The new cooldown is the third draw of the generator, uniform in
    /// `cooldown_min ..= cooldown_max`.
    open spec fn reset_ok(&self, rng_state: u64, cooldown: u32) -> bool {
        cooldown == spec_range(
            spec_next(spec_next(rng_state)),
            self.cooldown_min as int,
            self.cooldown_max as int,
        )
    }

    fn update(&mut self, delta_time: u32) {
        if self.cooldown_timer > delta_time {
            self.cooldown_timer = self.cooldown_timer - delta_time;
        } else {
            self.cooldown_timer = 0;
        }
    }

    fn try_fire(&mut self, cannon_x: i64, cannon_y: i64, cannon_angle: i64, rng: &mut Rng) -> (b:
        Option<Bullet>) {
        if self.cooldown_timer > 0 {
            return None;
        }
        let off: i64 = rng.range_i64(-self.angle_spread, self.angle_spread);
        let firing_angle: i64 = cannon_angle + off;
        let spd: i64 = rng.range_i64(self.speed_min, self.speed_max);
        let s: i64 = sin_mrad(firing_angle);
        let c: i64 = cos_mrad(firing_angle);
        let vx: i64 = mul_unit(spd, s);
        let vy: i64 = mul_unit(spd, c);
        proof {
            assert(spec_abs(spd as int) * spec_abs(s as int) <= 2000000 && spec_abs(spd as int)
                * spec_abs(c as int) <= 2000000) by (nonlinear_arith)
                requires
                    spec_abs(spd as int) <= 2000,
                    spec_abs(s as int) <= 1000,
                    spec_abs(c as int) <= 1000,
            {
            }
        }
        let dx: i64 = -vx;
        let dy: i64 = vy;
        let tip_x: i64 = cannon_x + mul_unit(CANNON_LENGTH, s);
        let tip_y: i64 = cannon_y + mul_unit(CANNON_LENGTH, c);
        let reset: i64 = rng.range_i64(self.cooldown_min as i64, self.cooldown_max as i64);
        self.cooldown_timer = reset as u32;
        Some(
            Bullet {
                x: -tip_x,
                y: tip_y,
                dx,
                dy,
                radius: self.bullet_radius,
                health: 1,
            },
        )
    }
}

} // verus!
