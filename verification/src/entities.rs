//! Entity records of the simulation: bricks, bullets, particles and queued
//! particle bursts.  They are plain data; all behaviour lives in the
//! per-frame update.
//!
//! Besides the records, this module holds the counting functions that the
//! update contracts are stated over: how many bricks are still alive, how
//! much health the brick field holds in total, and how many particles of a
//! batch outlive a frame.

use vstd::prelude::*;

verus! {

use crate::color::{color_wf, Rgba};
use crate::fixed::spec_abs;

/// An axis-aligned destructible brick.  Geometry and colour never change
/// after construction; only `health` and `hit_timer` do.  A brick whose
/// health reached 0 stays in storage (so grid references stay valid) but is
/// inert.
#[derive(Clone, Copy, PartialEq, Eq, Structural, Debug)]
pub struct Brick {
    /// Left edge.
    pub left: i64,
    /// Bottom edge.
    pub bottom: i64,
    /// Right edge.
    pub right: i64,
    /// Top edge.
    pub top: i64,
    /// Hits this brick still takes; 0 means destroyed.
    pub health: u32,
    /// Base colour derived from the horizontal position.
    pub base_color: Rgba,
    /// Remaining hit-flash time in milliseconds.
    pub hit_timer: u32,
}

/// A brick's geometry sits inside the extended field, its flash timer never
/// exceeds the flash duration, and its colour is a real colour.
pub open spec fn brick_wf(b: Brick) -> bool {
    &&& -1100 <= b.left < b.right <= 1100
    &&& -1100 <= b.bottom < b.top <= 1100
    &&& b.hit_timer <= 100
    &&& color_wf(b.base_color)
}

/// A brick still takes part in collisions.
pub open spec fn brick_alive(b: Brick) -> bool {
    b.health > 0
}

/// The colour a renderer shows brick `b` with: a white flash while the
/// hit timer runs, otherwise the base colour darkened in proportion to
/// the remaining health out of the full 5 (anything above renders as
/// full).
pub open spec fn spec_brick_render_color(b: Brick) -> Rgba {
    if b.hit_timer > 0 {
        Rgba { r: 1000, g: 1000, b: 1000, a: 1000 }
    } else {
        let h = if b.health > 5 {
            5int
        } else {
            b.health as int
        };
        Rgba {
            r: (b.base_color.r * h / 5) as u32,
            g: (b.base_color.g * h / 5) as u32,
            b: (b.base_color.b * h / 5) as u32,
            a: 1000,
        }
    }
}

impl Brick {
    /// Derived render colour of the brick, per
    /// `spec_brick_render_color`; always a well-formed colour when the
    /// base colour is one.
    pub fn render_color(&self) -> (c: Rgba)
        requires
            color_wf(self.base_color),
        ensures
            c == spec_brick_render_color(*self),
            color_wf(c),
    {
        if self.hit_timer > 0 {
            Rgba { r: 1000, g: 1000, b: 1000, a: 1000 }
        } else {
            let h: u32 = if self.health > 5 {
                5
            } else {
                self.health
            };
            proof {
                assert(self.base_color.r * h <= 5000 && self.base_color.g * h <= 5000
                    && self.base_color.b * h <= 5000) by (nonlinear_arith)
                    requires
                        self.base_color.r <= 1000,
                        self.base_color.g <= 1000,
                        self.base_color.b <= 1000,
                        h <= 5,
                {
                }
            }
            Rgba {
                r: self.base_color.r * h / 5,
                g: self.base_color.g * h / 5,
                b: self.base_color.b * h / 5,
                a: 1000,
            }
        }
    }
}

/// A bullet in flight.
#[derive(Clone, Copy, PartialEq, Eq, Structural, Debug)]
pub struct Bullet {
    /// Centre, horizontal.
    pub x: i64,
    /// Centre, vertical.
    pub y: i64,
    /// Velocity, horizontal, in coordinate ticks per second.
    pub dx: i64,
    /// Velocity, vertical, in coordinate ticks per second.
    pub dy: i64,
    /// Radius of the bullet's bounding box.
    pub radius: i64,
    /// Brick impacts this bullet survives; it is removed at 0.
    pub health: u32,
}

/// A bullet sits inside the playfield and its speed stays below the firing
/// limit; friction and reflection never increase it.
pub open spec fn bullet_wf(b: Bullet) -> bool {
    &&& 0 < b.radius <= 500
    &&& spec_abs(b.x as int) <= 1000
    &&& spec_abs(b.y as int) <= 1000
    &&& spec_abs(b.dx as int) <= 2000
    &&& spec_abs(b.dy as int) <= 2000
}

/// A decorative particle.  Purely cosmetic: its fate never feeds back into
/// collisions or the score.
#[derive(Clone, Copy, PartialEq, Eq, Structural, Debug)]
pub struct Particle {
    /// Centre, horizontal.
    pub x: i64,
    /// Centre, vertical.
    pub y: i64,
    /// Velocity, horizontal, in coordinate ticks per second.
    pub dx: i64,
    /// Velocity, vertical, in coordinate ticks per second.
    pub dy: i64,
    /// Remaining lifetime in milliseconds; the particle is removed once
    /// this reaches 0.
    pub lifetime: u32,
    /// Colour the particle is drawn with.
    pub color: Rgba,
}

/// A particle is slow, short-lived, and cannot stray far: the position
/// bound tightens as the remaining lifetime shrinks, since a particle
/// drifts at most one fifth of a tick per millisecond of life spent.
pub open spec fn particle_wf(p: Particle) -> bool {
    &&& p.lifetime <= 500
    &&& spec_abs(p.dx as int) <= 200
    &&& spec_abs(p.dy as int) <= 200
    &&& 5 * spec_abs(p.x as int) + p.lifetime <= 8500
    &&& 5 * spec_abs(p.y as int) + p.lifetime <= 8500
    &&& color_wf(p.color)
}

impl Particle {
    /// Derived render alpha of the particle, scaled by 1000: the fraction
    /// of the full lifetime still remaining, so a particle fades linearly
    /// as it ages.
    pub fn render_alpha(&self) -> (a: u32)
        ensures
            a == (if self.lifetime > 500 {
                1000int
            } else {
                self.lifetime * 2
            }),
            a <= 1000,
    {
        if self.lifetime > 500 {
            1000
        } else {
            self.lifetime * 2
        }
    }
}

/// A burst of particles queued during collision handling and materialised
/// at the end of the frame.
#[derive(Clone, Copy, PartialEq, Eq, Structural, Debug)]
pub struct Burst {
    /// Origin, horizontal.
    pub x: i64,
    /// Origin, vertical.
    pub y: i64,
    /// How many particles the burst creates.
    pub count: u32,
    /// Colour of every particle of the burst.
    pub color: Rgba,
}

/// A burst origin lies close enough to the field for its particles to be
/// well formed, and its size is small.
pub open spec fn burst_wf(bu: Burst) -> bool {
    &&& spec_abs(bu.x as int) <= 1600
    &&& spec_abs(bu.y as int) <= 1600
    &&& bu.count <= 1000
    &&& color_wf(bu.color)
}

/// How many bricks of `s` are still alive.
pub open spec fn count_alive(s: Seq<Brick>) -> int
    decreases s.len(),
{
    if s.len() == 0 {
        0
    } else {
        count_alive(s.drop_last()) + if brick_alive(s.last()) {
            1int
        } else {
            0int
        }
    }
}

/// Total health held by the bricks of `s`.
pub open spec fn total_health(s: Seq<Brick>) -> int
    decreases s.len(),
{
    if s.len() == 0 {
        0
    } else {
        total_health(s.drop_last()) + s.last().health
    }
}

/// The number of alive bricks is between 0 and the brick count.
pub proof fn lemma_count_alive_bounds(s: Seq<Brick>)
    ensures
        0 <= count_alive(s) <= s.len(),
    decreases s.len(),
{
    if s.len() > 0 {
        lemma_count_alive_bounds(s.drop_last());
    }
}

/// A field of bricks that are all alive counts fully.
pub proof fn lemma_count_alive_all(s: Seq<Brick>)
    requires
        forall|i: int| 0 <= i < s.len() ==> (#[trigger] s[i]).health > 0,
    ensures
        count_alive(s) == s.len(),
    decreases s.len(),
{
    if s.len() > 0 {
        lemma_count_alive_all(s.drop_last());
    }
}

/// Replacing the brick at `i` moves the alive count and the total health by
/// exactly that brick's contribution.
pub proof fn lemma_brick_counts_update(s: Seq<Brick>, i: int, b: Brick)
    requires
        0 <= i < s.len(),
    ensures
        count_alive(s.update(i, b)) == count_alive(s) - (if brick_alive(s[i]) {
            1int
        } else {
            0int
        }) + (if brick_alive(b) {
            1int
        } else {
            0int
        }),
        total_health(s.update(i, b)) == total_health(s) - s[i].health + b.health,
    decreases s.len(),
{
    let t = s.update(i, b);
    if i == s.len() - 1 {
        assert(t.drop_last() =~= s.drop_last());
    } else {
        assert(t.drop_last() =~= s.drop_last().update(i, b));
        lemma_brick_counts_update(s.drop_last(), i, b);
    }
}

/// Brick fields other than health do not enter the alive count or the
/// total health: pointwise equal healths give equal counts.
pub proof fn lemma_counts_pointwise_health(a: Seq<Brick>, b: Seq<Brick>)
    requires
        a.len() == b.len(),
        forall|i: int| 0 <= i < a.len() ==> (#[trigger] a[i]).health == b[i].health,
    ensures
        count_alive(a) == count_alive(b),
        total_health(a) == total_health(b),
    decreases a.len(),
{
    if a.len() > 0 {
        lemma_counts_pointwise_health(a.drop_last(), b.drop_last());
    }
}

/// How many particles of `s` would outlive a frame of `dt` milliseconds.
pub open spec fn count_outliving(s: Seq<Particle>, dt: int) -> int
    decreases s.len(),
{
    if s.len() == 0 {
        0
    } else {
        count_outliving(s.drop_last(), dt) + if s.last().lifetime > dt {
            1int
        } else {
            0int
        }
    }
}

/// Outliving counts add over concatenation.
pub proof fn lemma_count_outliving_concat(a: Seq<Particle>, b: Seq<Particle>, dt: int)
    ensures
        count_outliving(a + b, dt) == count_outliving(a, dt) + count_outliving(b, dt),
    decreases b.len(),
{
    if b.len() == 0 {
        assert(a + b =~= a);
    } else {
        assert((a + b).drop_last() =~= a + b.drop_last());
        lemma_count_outliving_concat(a, b.drop_last(), dt);
    }
}

/// A batch of particles that all start with the full lifetime outlives a
/// frame either completely or not at all.
pub proof fn lemma_count_outliving_fresh(s: Seq<Particle>, dt: int)
    requires
        forall|i: int| 0 <= i < s.len() ==> #[trigger] s[i].lifetime == 500,
    ensures
        count_outliving(s, dt) == if dt < 500 {
            s.len() as int
        } else {
            0int
        },
    decreases s.len(),
{
    if s.len() > 0 {
        lemma_count_outliving_fresh(s.drop_last(), dt);
    }
}

/// Total particle count carried by a queue of bursts.
pub open spec fn burst_total(s: Seq<Burst>) -> int
    decreases s.len(),
{
    if s.len() == 0 {
        0
    } else {
        burst_total(s.drop_last()) + s.last().count
    }
}

/// A burst queue never carries a negative particle total.
pub proof fn lemma_burst_total_nonneg(s: Seq<Burst>)
    ensures
        burst_total(s) >= 0,
    decreases s.len(),
{
    if s.len() > 0 {
        lemma_burst_total_nonneg(s.drop_last());
    }
}

/// Queueing one more burst adds exactly its count.
pub proof fn lemma_burst_total_push(s: Seq<Burst>, b: Burst)
    ensures
        burst_total(s.push(b)) == burst_total(s) + b.count,
{
    assert(s.push(b).drop_last() =~= s);
}

} // verus!
