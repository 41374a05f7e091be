//! The simulation state and its per-frame update.
//!
//! `GameState` owns every entity collection, the weapon, the random
//! generator and the spatial index.  One call of `update` advances the game
//! by a frame: aiming, firing, bullet physics with boundary reflection,
//! broad- and narrow-phase collision handling with damage and scoring,
//! particle spawning, and pruning of dead bullets, expired particles and
//! finished flash timers.

use vstd::prelude::*;

verus! {

use crate::color::{color_wf, hsv_to_rgb, spec_hsv_channels, Rgba};
use crate::entities::{
    brick_wf, bullet_wf, burst_total, burst_wf, count_alive, count_outliving,
    lemma_brick_counts_update, lemma_burst_total_push, lemma_count_alive_bounds,
    lemma_burst_total_nonneg, lemma_count_alive_all, lemma_count_outliving_concat,
    lemma_count_outliving_fresh, lemma_counts_pointwise_health, particle_wf, total_health, Brick,
    Bullet, Burst, Particle,
};
use crate::fixed::{
    clamp_i64, cos_mrad, floor_div, friction_factor_ppm, lemma_div_shrinks, mul_unit, scale_ppm,
    sin_mrad, spec_abs, spec_clamp, spec_cos_mrad, spec_friction_ppm, spec_mul_unit,
    spec_scale_ppm, spec_sin_mrad,
};
use crate::grid::{spec_dedup_from, HashGrid};
use vstd::arithmetic::div_mod::lemma_div_is_ordered;
use crate::params::{
    BRICK_HEIGHT, BRICK_SPACING, BRICK_START_HEALTH, BRICK_WIDTH, CANNON_LENGTH, CANNON_Y,
    DESTROY_BURST, HIT_EFFECT_DURATION, IMPACT_BURST, MAX_OFFSET, MUZZLE_BURST,
    NUM_COLS, NUM_ROWS, PARTICLE_LIFETIME, PARTICLE_SPEED, PI_MRAD, ROTATION_SPEED,
    TWO_PI_MRAD,
};
use crate::rng::{spec_next, spec_range, Rng};
use crate::weapon::{spec_shot, SimpleCannon, Weapon};

/// `a - b` stopped at 0; how timers decay.
pub open spec fn spec_sat_sub(a: int, b: int) -> int {
    if a > b {
        a - b
    } else {
        0
    }
}

/// The strict axis-aligned overlap test of the narrow phase: a brick takes
/// part only while alive, and touching edges do not count.
pub open spec fn bullet_hits_brick(b: Bullet, br: Brick) -> bool {
    &&& br.health > 0
    &&& b.x + b.radius > br.left
    &&& b.x - b.radius < br.right
    &&& b.y + b.radius > br.bottom
    &&& b.y - b.radius < br.top
}

/// One frame of bullet physics: exponential friction on the velocity,
/// integration of the position, then reflection off the left, right and
/// top field edges in that order.  The bottom edge does not reflect;
/// bullets that leave through it are discarded later.
pub open spec fn spec_integrated(b: Bullet, dt: int, f: int) -> Bullet {
    let dx1 = spec_scale_ppm(b.dx as int, f);
    let dy1 = spec_scale_ppm(b.dy as int, f);
    let x1 = b.x + spec_mul_unit(dx1, dt);
    let y1 = b.y + spec_mul_unit(dy1, dt);
    let x2 = if x1 - b.radius < -1000 {
        -1000 + b.radius as int
    } else {
        x1
    };
    let dx2 = if x1 - b.radius < -1000 {
        -dx1
    } else {
        dx1
    };
    let x3 = if x2 + b.radius > 1000 {
        1000 - b.radius as int
    } else {
        x2
    };
    let dx3 = if x2 + b.radius > 1000 {
        -dx2
    } else {
        dx2
    };
    let y2 = if y1 + b.radius > 1000 {
        1000 - b.radius as int
    } else {
        y1
    };
    let dy2 = if y1 + b.radius > 1000 {
        -dy1
    } else {
        dy1
    };
    Bullet {
        x: x3 as i64,
        y: y2 as i64,
        dx: dx3 as i64,
        dy: dy2 as i64,
        radius: b.radius,
        health: b.health,
    }
}

/// Apply one frame of physics to `b`; the exact outcome is
/// `spec_integrated`, and the listed bounds let callers keep the live set
/// well formed.
pub fn integrate_bullet(b: &mut Bullet, dt: u32, f: i64)
    requires
        bullet_wf(*old(b)),
        0 <= f <= 1000000,
    ensures
        *final(b) == spec_integrated(*old(b), dt as int, f as int),
        final(b).radius == old(b).radius,
        final(b).health == old(b).health,
        spec_abs(final(b).dx as int) <= spec_abs(old(b).dx as int),
        spec_abs(final(b).dy as int) <= spec_abs(old(b).dy as int),
        spec_abs(final(b).x as int) + final(b).radius <= 1000,
        final(b).y + final(b).radius <= 1000,
        final(b).y >= -1000 - 3 * (dt as int),
{
    let dx1: i64 = scale_ppm(b.dx, f);
    let dy1: i64 = scale_ppm(b.dy, f);
    let mx: i64 = mul_unit(dx1, dt as i64);
    let my: i64 = mul_unit(dy1, dt as i64);
    proof {
        assert(spec_abs(dx1 as int) * (dt as int) <= 2000 * (dt as int) && spec_abs(dy1 as int) * (
        dt as int) <= 2000 * (dt as int)) by (nonlinear_arith)
            requires
                spec_abs(dx1 as int) <= 2000,
                spec_abs(dy1 as int) <= 2000,
                dt as int >= 0,
        {
        }
    }
    b.dx = dx1;
    b.dy = dy1;
    b.x = b.x + mx;
    b.y = b.y + my;
    if b.x - b.radius < -1000 {
        b.x = -1000 + b.radius;
        b.dx = -b.dx;
    }
    if b.x + b.radius > 1000 {
        b.x = 1000 - b.radius;
        b.dx = -b.dx;
    }
    if b.y + b.radius > 1000 {
        b.y = 1000 - b.radius;
        b.dy = -b.dy;
    }
}

/// The mirror of what one pass of narrow-phase resolution does: fold the
/// candidate brick indices in order over the state.  Each candidate that
/// is alive and overlaps the bullet's bounding box loses one health, costs
/// the bullet one health (stopped at 0), bounces the bullet vertically,
/// rearms the brick's hit flash, and queues an impact burst of 3; a brick
/// brought to health 0 scores one point and queues a destruction burst of
/// 10 at its centre.
pub open spec fn spec_collide(
    bricks: Seq<Brick>,
    b: Bullet,
    score: int,
    bursts: Seq<Burst>,
    cands: Seq<usize>,
) -> (Seq<Brick>, Bullet, int, Seq<Burst>)
    decreases cands.len(),
{
    if cands.len() == 0 {
        (bricks, b, score, bursts)
    } else {
        let id = cands[0] as int;
        if 0 <= id < bricks.len() && bullet_hits_brick(b, bricks[id]) {
            let br = bricks[id];
            let br2 = Brick {
                left: br.left,
                bottom: br.bottom,
                right: br.right,
                top: br.top,
                health: (br.health - 1) as u32,
                base_color: br.base_color,
                hit_timer: 100,
            };
            let b2 = Bullet {
                x: b.x,
                y: b.y,
                dx: b.dx,
                dy: (-(b.dy as int)) as i64,
                radius: b.radius,
                health: if b.health > 0 {
                    (b.health - 1) as u32
                } else {
                    0u32
                },
            };
            let impact = Burst { x: b.x, y: b.y, count: 3, color: br.base_color };
            if br2.health == 0 {
                let destroy = Burst {
                    x: ((br.left + br.right) / 2) as i64,
                    y: ((br.bottom + br.top) / 2) as i64,
                    count: 10,
                    color: br.base_color,
                };
                spec_collide(
                    bricks.update(id, br2),
                    b2,
                    score + 1,
                    bursts.push(impact).push(destroy),
                    cands.drop_first(),
                )
            } else {
                spec_collide(
                    bricks.update(id, br2),
                    b2,
                    score,
                    bursts.push(impact),
                    cands.drop_first(),
                )
            }
        } else {
            spec_collide(bricks, b, score, bursts, cands.drop_first())
        }
    }
}

/// A bullet stays in the live set after a frame: it has health left and
/// has not fallen through the bottom edge.
pub open spec fn bullet_live(b: Bullet) -> bool {
    b.health > 0 && b.y - b.radius >= -1000
}

/// The bullets of `s` that stay live, in order.
pub open spec fn spec_live_bullets(s: Seq<Bullet>) -> Seq<Bullet>
    decreases s.len(),
{
    if s.len() == 0 {
        Seq::<Bullet>::empty()
    } else {
        let rest = spec_live_bullets(s.drop_last());
        if bullet_live(s.last()) {
            rest.push(s.last())
        } else {
            rest
        }
    }
}

/// The whole bullet phase of a frame as a fold over the live list: each
/// bullet in order is integrated, its deduplicated candidates are drawn
/// from the grid cells its bounding box covers, and the narrow phase is
/// applied; the processed bullets come out in order together with the
/// bricks, score and burst queue they produced.
pub open spec fn spec_resolve_bullets(
    g: HashGrid,
    dt: int,
    f: int,
    bullets: Seq<Bullet>,
    bricks: Seq<Brick>,
    score: int,
    bursts: Seq<Burst>,
) -> (Seq<Bullet>, Seq<Brick>, int, Seq<Burst>)
    decreases bullets.len(),
{
    if bullets.len() == 0 {
        (Seq::<Bullet>::empty(), bricks, score, bursts)
    } else {
        let ib = spec_integrated(bullets[0], dt, f);
        let cands = g.spec_candidates(
            ib.x - ib.radius,
            ib.y - ib.radius,
            ib.x + ib.radius,
            ib.y + ib.radius,
        );
        let (bricks2, b2, score2, bursts2) = spec_collide(bricks, ib, score, bursts, cands);
        let (rest, bricks3, score3, bursts3) = spec_resolve_bullets(
            g,
            dt,
            f,
            bullets.drop_first(),
            bricks2,
            score2,
            bursts2,
        );
        (seq![b2] + rest, bricks3, score3, bursts3)
    }
}

/// What any narrow-phase pass guarantees, proved once by induction over
/// the candidate list: geometry and colours never change, health only
/// falls, a damaged brick flashes, the score moves in lockstep with the
/// number of bricks that died, the queued bursts account for exactly 3
/// particles per point of damage plus 10 per destroyed brick, and the
/// bullet keeps its position and horizontal motion while its vertical
/// speed only changes sign.
pub proof fn lemma_collide_props(
    bricks: Seq<Brick>,
    b: Bullet,
    score: int,
    bursts: Seq<Burst>,
    cands: Seq<usize>,
)
    requires
        forall|i: int| 0 <= i < cands.len() ==> (#[trigger] cands[i]) < bricks.len(),
        forall|i: int| 0 <= i < bricks.len() ==> brick_wf(#[trigger] bricks[i]),
        0 < b.radius <= 500,
        spec_abs(b.dy as int) <= 1000000,
    ensures
        ({
            let (bricks2, b2, score2, bursts2) = spec_collide(bricks, b, score, bursts, cands);
            &&& bricks2.len() == bricks.len()
            &&& forall|i: int| 0 <= i < bricks.len() ==> brick_wf(#[trigger] bricks2[i])
            &&& forall|i: int|
                0 <= i < bricks.len() ==> (#[trigger] bricks2[i]).left == bricks[i].left
                    && bricks2[i].right == bricks[i].right && bricks2[i].bottom
                    == bricks[i].bottom && bricks2[i].top == bricks[i].top
                    && bricks2[i].base_color == bricks[i].base_color
            &&& forall|i: int|
                0 <= i < bricks.len() ==> (#[trigger] bricks2[i]).health <= bricks[i].health
            &&& forall|i: int|
                0 <= i < bricks.len() ==> ((#[trigger] bricks2[i]).health < bricks[i].health
                    ==> bricks2[i].hit_timer == 100)
            &&& forall|i: int|
                0 <= i < bricks.len() ==> ((#[trigger] bricks2[i]).health == bricks[i].health
                    ==> bricks2[i].hit_timer == bricks[i].hit_timer)
            &&& score2 - score == count_alive(bricks) - count_alive(bricks2)
            &&& count_alive(bricks2) <= count_alive(bricks)
            &&& total_health(bricks2) <= total_health(bricks)
            &&& burst_total(bursts2) == burst_total(bursts) + 3 * (total_health(bricks)
                - total_health(bricks2)) + 10 * (score2 - score)
            &&& bursts2.len() >= bursts.len()
            &&& forall|j: int| 0 <= j < bursts.len() ==> #[trigger] bursts2[j] == bursts[j]
            &&& forall|j: int|
                bursts.len() <= j < bursts2.len() ==> burst_wf(#[trigger] bursts2[j])
            &&& b2.x == b.x && b2.y == b.y && b2.dx == b.dx && b2.radius == b.radius
            &&& spec_abs(b2.dy as int) == spec_abs(b.dy as int)
            &&& b2.health <= b.health
        }),
    decreases cands.len(),
{
    if cands.len() == 0 {
    } else {
        let id = cands[0] as int;
        let rest = cands.drop_first();
        assert(forall|i: int| 0 <= i < rest.len() ==> (#[trigger] rest[i]) < bricks.len());
        if 0 <= id < bricks.len() && bullet_hits_brick(b, bricks[id]) {
            let br = bricks[id];
            let br2 = Brick {
                left: br.left,
                bottom: br.bottom,
                right: br.right,
                top: br.top,
                health: (br.health - 1) as u32,
                base_color: br.base_color,
                hit_timer: 100,
            };
            let b2 = Bullet {
                x: b.x,
                y: b.y,
                dx: b.dx,
                dy: (-(b.dy as int)) as i64,
                radius: b.radius,
                health: if b.health > 0 {
                    (b.health - 1) as u32
                } else {
                    0u32
                },
            };
            let impact = Burst { x: b.x, y: b.y, count: 3, color: br.base_color };
            let mid = bricks.update(id, br2);
            lemma_brick_counts_update(bricks, id, br2);
            lemma_count_alive_bounds(bricks);
            lemma_count_alive_bounds(mid);
            assert(burst_wf(impact));
            if br2.health == 0 {
                let destroy = Burst {
                    x: ((br.left + br.right) / 2) as i64,
                    y: ((br.bottom + br.top) / 2) as i64,
                    count: 10,
                    color: br.base_color,
                };
                lemma_div_is_ordered(-2200, br.left + br.right, 2);
                lemma_div_is_ordered(br.left + br.right, 2200, 2);
                lemma_div_is_ordered(-2200, br.bottom + br.top, 2);
                lemma_div_is_ordered(br.bottom + br.top, 2200, 2);
                assert(burst_wf(destroy));
                lemma_burst_total_push(bursts, impact);
                lemma_burst_total_push(bursts.push(impact), destroy);
                lemma_collide_props(mid, b2, score + 1, bursts.push(impact).push(destroy), rest);
            } else {
                lemma_burst_total_push(bursts, impact);
                lemma_collide_props(mid, b2, score, bursts.push(impact), rest);
            }
        } else {
            lemma_collide_props(bricks, b, score, bursts, rest);
        }
    }
}

/// Run the narrow phase of one bullet against the candidate brick indices
/// `cands`, in order.  The outcome is exactly the `spec_collide` fold of
/// the four pieces of state it touches.
pub fn apply_hits(
    bricks: &mut Vec<Brick>,
    bullet: &mut Bullet,
    cands: &Vec<usize>,
    score: &mut u32,
    bursts: &mut Vec<Burst>,
)
    requires
        forall|i: int| 0 <= i < cands@.len() ==> (#[trigger] cands@[i]) < old(bricks)@.len(),
        forall|i: int| 0 <= i < old(bricks)@.len() ==> brick_wf(#[trigger] old(bricks)@[i]),
        0 < old(bullet).radius <= 500,
        spec_abs(old(bullet).x as int) <= 100000,
        spec_abs(old(bullet).y as int) <= 100000000000,
        spec_abs(old(bullet).dy as int) <= 1000000,
        *old(score) + count_alive(old(bricks)@) <= u32::MAX,
    ensures
        ({
            let (bricks2, b2, score2, bursts2) = spec_collide(
                old(bricks)@,
                *old(bullet),
                *old(score) as int,
                old(bursts)@,
                cands@,
            );
            &&& final(bricks)@ == bricks2
            &&& *final(bullet) == b2
            &&& *final(score) == score2
            &&& final(bursts)@ == bursts2
        }),
{
    let ghost bricks0 = bricks@;
    let ghost bullet0 = *bullet;
    let ghost score0 = *score as int;
    let ghost bursts0 = bursts@;
    proof {
        assert(cands@.skip(0) =~= cands@);
    }
    let mut i: usize = 0;
    while i < cands.len()
        invariant
            i <= cands@.len(),
            bricks@.len() == bricks0.len(),
            forall|j: int| 0 <= j < cands@.len() ==> (#[trigger] cands@[j]) < bricks@.len(),
            forall|j: int| 0 <= j < bricks@.len() ==> brick_wf(#[trigger] bricks@[j]),
            0 < bullet.radius <= 500,
            bullet.x == bullet0.x,
            bullet.y == bullet0.y,
            spec_abs(bullet0.x as int) <= 100000,
            spec_abs(bullet0.y as int) <= 100000000000,
            spec_abs(bullet.dy as int) <= 1000000,
            *score + count_alive(bricks@) <= u32::MAX,
            spec_collide(bricks@, *bullet, *score as int, bursts@, cands@.skip(i as int))
                == spec_collide(bricks0, bullet0, score0, bursts0, cands@),
        decreases cands@.len() - i,
    {
        proof {
            assert(cands@.skip(i as int).len() == cands@.len() - i);
            assert(cands@.skip(i as int)[0] == cands@[i as int]);
            assert(cands@.skip(i as int).drop_first() =~= cands@.skip(i + 1));
        }
        let id: usize = cands[i];
        let br: Brick = bricks[id];
        let hit: bool = br.health > 0 && bullet.x + bullet.radius > br.left && bullet.x
            - bullet.radius < br.right && bullet.y + bullet.radius > br.bottom && bullet.y
            - bullet.radius < br.top;
        if hit {
            let mut nb: Brick = br;
            nb.health = br.health - 1;
            nb.hit_timer = HIT_EFFECT_DURATION;
            proof {
                lemma_brick_counts_update(bricks@, id as int, nb);
                lemma_count_alive_bounds(bricks@.update(id as int, nb));
            }
            bricks[id] = nb;
            bullet.dy = -bullet.dy;
            if bullet.health > 0 {
                bullet.health = bullet.health - 1;
            }
            bursts.push(
                Burst { x: bullet.x, y: bullet.y, count: IMPACT_BURST, color: br.base_color },
            );
            if nb.health == 0 {
                *score = *score + 1;
                let cx: i64 = floor_div(br.left + br.right, 2);
                let cy: i64 = floor_div(br.bottom + br.top, 2);
                bursts.push(Burst { x: cx, y: cy, count: DESTROY_BURST, color: br.base_color });
            }
        }
        i = i + 1;
    }
    proof {
        assert(cands@.skip(cands@.len() as int) =~= Seq::<usize>::empty());
    }
}

/// Materialising a queue of bursts in order: each burst appends its
/// exact batch of particles and advances the generator by one pair of
/// draws per particle.
pub open spec fn spec_spawn_bursts(st: u64, particles: Seq<Particle>, bursts: Seq<Burst>) -> (
    Seq<Particle>,
    u64,
)
    decreases bursts.len(),
{
    if bursts.len() == 0 {
        (particles, st)
    } else {
        spec_spawn_bursts(
            spec_rng_pairs(st, bursts[0].count as nat),
            particles + spec_spawned(st, bursts[0].x, bursts[0].y, bursts[0].count as nat, bursts[0].color),
            bursts.drop_first(),
        )
    }
}

/// A brick after the end-of-frame flash decay: the timer falls by the
/// frame, saturating at 0; nothing else changes.
pub open spec fn spec_tick_brick(b: Brick, dt: int) -> Brick {
    Brick {
        left: b.left,
        bottom: b.bottom,
        right: b.right,
        top: b.top,
        health: b.health,
        base_color: b.base_color,
        hit_timer: spec_sat_sub(b.hit_timer as int, dt) as u32,
    }
}

/// A surviving particle after a frame: moved by its velocity over the
/// frame, with the frame taken off its lifetime.
pub open spec fn spec_aged_particle(p: Particle, dt: int) -> Particle {
    Particle {
        x: (p.x + spec_mul_unit(p.dx as int, dt)) as i64,
        y: (p.y + spec_mul_unit(p.dy as int, dt)) as i64,
        dx: p.dx,
        dy: p.dy,
        lifetime: (p.lifetime - dt) as u32,
        color: p.color,
    }
}

/// The end-of-frame particle pass: every particle that outlives the
/// frame survives, aged; the rest disappear.
pub open spec fn spec_age_particles(s: Seq<Particle>, dt: int) -> Seq<Particle>
    decreases s.len(),
{
    if s.len() == 0 {
        Seq::<Particle>::empty()
    } else {
        let rest = spec_age_particles(s.drop_last(), dt);
        if s.last().lifetime > dt {
            rest.push(spec_aged_particle(s.last(), dt))
        } else {
            rest
        }
    }
}

/// The aim angle a frame settles on before clamping: the pointer angle
/// while pointer aiming is active, otherwise the old angle turned by the
/// rotation rate for each held key.
pub open spec fn spec_aim(s: GameState, dt: int) -> int {
    match s.pointer_aim {
        Some(a) => a as int,
        None => s.theta + (if s.left_pressed {
            spec_mul_unit(6283, dt)
        } else {
            0int
        }) - (if s.right_pressed {
            spec_mul_unit(6283, dt)
        } else {
            0int
        }),
    }
}

/// Whether a frame of `dt` milliseconds fires: the fire intent is set and
/// the cooldown runs out within the frame.
pub open spec fn spec_fires(s: GameState, dt: int) -> bool {
    s.fire_pressed && s.weapon.cooldown_timer <= dt
}

/// The velocity drawn for one spawned particle: a uniform angle over the
/// full turn and a uniform speed up to the particle cap, decomposed into
/// components; the third part is the generator state after the two draws.
pub open spec fn spec_particle_vel(st: u64) -> (int, int, u64) {
    let a = spec_range(st, 0, 6282);
    let t = if a > 3142 {
        a - 6283
    } else {
        a
    };
    let spd = spec_range(spec_next(st), 0, 200);
    (
        spec_mul_unit(spd, spec_cos_mrad(t)),
        spec_mul_unit(spd, spec_sin_mrad(t)),
        spec_next(spec_next(st)),
    )
}

/// The generator state after `n` pairs of draws; each spawned particle
/// and each jittered brick of the initial grid takes one pair.
pub open spec fn spec_rng_pairs(st: u64, n: nat) -> u64
    decreases n,
{
    if n == 0 {
        st
    } else {
        spec_next(spec_next(spec_rng_pairs(st, (n - 1) as nat)))
    }
}

/// The exact batch of `n` particles spawned at `(x, y)` with colour
/// `color` from generator state `st`: each takes one pair of draws, in
/// order.
pub open spec fn spec_spawned(st: u64, x: i64, y: i64, n: nat, color: Rgba) -> Seq<Particle>
    decreases n,
{
    if n == 0 {
        Seq::<Particle>::empty()
    } else {
        spec_spawned(st, x, y, (n - 1) as nat, color).push(
            Particle {
                x,
                y,
                dx: spec_particle_vel(spec_rng_pairs(st, (n - 1) as nat)).0 as i64,
                dy: spec_particle_vel(spec_rng_pairs(st, (n - 1) as nat)).1 as i64,
                lifetime: 500,
                color,
            },
        )
    }
}

/// Append `x` to `v` exactly when it is not already present.
fn push_unique(v: &mut Vec<usize>, x: usize)
    ensures
        final(v)@ == (if old(v)@.contains(x) {
            old(v)@
        } else {
            old(v)@.push(x)
        }),
{
    let mut j: usize = 0;
    while j < v.len()
        invariant
            j <= v@.len(),
            forall|t: int| 0 <= t < j ==> v@[t] != x,
        decreases v@.len() - j,
    {
        if v[j] == x {
            return ;
        }
        j = j + 1;
    }
    proof {
        assert(!v@.contains(x));
    }
    v.push(x);
}

/// A brick's base colour is the hue-from-x mapping of its left edge:
/// hue millidegrees `(left + 1000) * 180`, saturation 0.7, value 1.
pub open spec fn brick_color_ok(b: Brick) -> bool {
    ({
        let (cr, cg, cb) = spec_hsv_channels((b.left + 1000) * 180, 700, 1000);
        b.base_color.r == cr && b.base_color.g == cg && b.base_color.b == cb && b.base_color.a
            == 1000
    })
}

/// The exact brick the deterministic build places in slot `k` when the
/// generator reaches that slot in state `st`: the jitter is the slot's
/// pair of draws, and geometry and colour derive from it.
pub open spec fn spec_initial_brick(k: int, st: u64) -> Brick {
    let ox = spec_range(st, -20, 20);
    let oy = spec_range(spec_next(st), -20, 20);
    let x = -545 + (k % 10) * 110 + ox;
    let y = -90 + (k / 10) * 110 + oy;
    let (cr, cg, cb) = spec_hsv_channels((x + 1000) * 180, 700, 1000);
    Brick {
        left: x as i64,
        bottom: y as i64,
        right: (x + 100) as i64,
        top: (y + 100) as i64,
        health: 5,
        base_color: Rgba { r: cr as u32, g: cg as u32, b: cb as u32, a: 1000 },
        hit_timer: 0,
    }
}

/// A brick of the freshly built grid: full health, no flash, the standard
/// size, sitting within the jitter range of grid slot `k`, coloured by its
/// horizontal position.
pub open spec fn initial_brick_ok(b: Brick, k: int) -> bool {
    &&& b.health == 5
    &&& b.hit_timer == 0
    &&& b.right == b.left + 100
    &&& b.top == b.bottom + 100
    &&& -20 <= b.left - (-545 + (k % 10) * 110) <= 20
    &&& -20 <= b.bottom - (-90 + (k / 10) * 110) <= 20
    &&& brick_color_ok(b)
    &&& brick_wf(b)
}

/// The whole simulation: entity collections, weapon, spatial index,
/// per-frame input intent, score, and the seedable random generator.
pub struct GameState {
    /// Cannon pivot, horizontal.
    pub cannon_x: i64,
    /// Cannon pivot, vertical.
    pub cannon_y: i64,
    /// Aim angle in milliradians, 0 pointing straight up, clamped to
    /// `[-1571, 1571]`.
    pub theta: i64,
    /// Live bullets.
    pub bullets: Vec<Bullet>,
    /// All bricks, dead ones included; positions in this vector are the
    /// identifiers held by the spatial index.
    pub bricks: Vec<Brick>,
    /// Live decorative particles.
    pub particles: Vec<Particle>,
    /// Keyboard intent: rotate left.
    pub left_pressed: bool,
    /// Keyboard intent: rotate right.
    pub right_pressed: bool,
    /// Fire intent.
    pub fire_pressed: bool,
    /// Pointer aim angle in milliradians; while present it overrides
    /// keyboard rotation.
    pub pointer_aim: Option<i64>,
    /// The firing strategy.
    pub weapon: SimpleCannon,
    /// Spatial index over the initial brick geometry.
    pub hash_grid: HashGrid,
    /// Points scored so far: one per destroyed brick.
    pub score: u32,
    /// Deterministic generator feeding jitter, spread and particle
    /// directions.
    pub rng: Rng,
}

impl GameState {
    /// Every brick identifier held by the spatial index denotes a brick.
    pub open spec fn grid_ids_valid(self) -> bool {
        forall|ix: int, iy: int, j: int|
            0 <= j < self.hash_grid.spec_cell(ix, iy).len() ==> (#[trigger] self.hash_grid.spec_cell(
                ix,
                iy,
            )[j]) < self.bricks@.len()
    }

    /// Every brick is registered in every in-grid cell its rectangle
    /// covers: the broad phase can never miss a brick.
    pub open spec fn grid_covers_bricks(self) -> bool {
        forall|i: int, ix: int, iy: int|
            0 <= i < self.bricks@.len() && #[trigger] self.hash_grid.covers(
                self.bricks@[i].left as int,
                self.bricks@[i].bottom as int,
                self.bricks@[i].right as int,
                self.bricks@[i].top as int,
                ix,
                iy,
            ) ==> self.hash_grid.spec_cell(ix, iy).contains(i as usize)
    }

    /// The standing invariant of the simulation: a usable weapon and grid,
    /// a grid that indexes exactly the bricks, a clamped aim angle, a
    /// cannon near the bottom centre, well-formed entities, and enough
    /// headroom that destroying every remaining brick cannot overflow the
    /// score.
    pub open spec fn wf(self) -> bool {
        &&& self.weapon.wf()
        &&& self.hash_grid.wf()
        &&& self.grid_ids_valid()
        &&& self.grid_covers_bricks()
        &&& -1571 <= self.theta <= 1571
        &&& spec_abs(self.cannon_x as int) <= 900
        &&& spec_abs(self.cannon_y as int) <= 900
        &&& forall|i: int| 0 <= i < self.bricks@.len() ==> brick_wf(#[trigger] self.bricks@[i])
        &&& forall|i: int| 0 <= i < self.bullets@.len() ==> bullet_wf(#[trigger] self.bullets@[i])
        &&& forall|i: int|
            0 <= i < self.particles@.len() ==> particle_wf(#[trigger] self.particles@[i])
        &&& self.score + count_alive(self.bricks@) <= u32::MAX
    }


    /// Collect the deduplicated candidate brick indices for the bounding
    /// box `[bl, br_] x [bb, bt]`, exactly as `spec_candidates` describes:
    /// the cells the box covers, walked column by column, each identifier
    /// kept once in first-occurrence order.
    fn gather_candidates(&self, bl: i64, bb: i64, br_: i64, bt: i64) -> (r: Vec<usize>)
        requires
            self.hash_grid.wf(),
            self.grid_ids_valid(),
            -100000000000 <= bl <= br_ <= 100000000000,
            -100000000000 <= bb <= bt <= 100000000000,
        ensures
            r@ == self.hash_grid.spec_candidates(bl as int, bb as int, br_ as int, bt as int),
            forall|j: int| 0 <= j < r@.len() ==> (#[trigger] r@[j]) < self.bricks@.len(),
    {
        let ghost g = self.hash_grid;
        let ghost full = g.spec_candidates(bl as int, bb as int, br_ as int, bt as int);
        let (ix_min, iy_min) = self.hash_grid.get_cell_index(bl, bb);
        let (ix_max, iy_max) = self.hash_grid.get_cell_index(br_, bt);
        proof {
            lemma_div_shrinks(bl + 1000, g.cell_width as int);
            lemma_div_shrinks(br_ + 1000, g.cell_width as int);
            lemma_div_shrinks(bb + 1000, g.cell_height as int);
            lemma_div_shrinks(bt + 1000, g.cell_height as int);
        }
        let mut cands: Vec<usize> = Vec::new();
        let mut cx: i64 = ix_min;
        while cx <= ix_max
            invariant
                self.hash_grid == g,
                self.hash_grid.wf(),
                self.grid_ids_valid(),
                -200000000000 <= cx,
                ix_max <= 200000000000,
                -200000000000 <= iy_min,
                iy_max <= 200000000000,
                iy_min == g.spec_cell_y(bb as int),
                iy_max == g.spec_cell_y(bt as int),
                spec_dedup_from(
                    g.spec_range_bricks(cx as int, ix_max as int, iy_min as int, iy_max as int),
                    cands@,
                ) == full,
                forall|j: int| 0 <= j < cands@.len() ==> (#[trigger] cands@[j]) < self.bricks@.len(),
            decreases ix_max + 1 - cx,
        {
            let mut cy: i64 = iy_min;
            while cy <= iy_max
                invariant
                    self.hash_grid == g,
                    self.hash_grid.wf(),
                    self.grid_ids_valid(),
                    -200000000000 <= cy,
                    iy_max <= 200000000000,
                    cx <= ix_max,
                    ix_max <= 200000000000,
                    iy_min == g.spec_cell_y(bb as int),
                    iy_max == g.spec_cell_y(bt as int),
                    spec_dedup_from(
                        g.spec_col_bricks(cx as int, cy as int, iy_max as int)
                            + g.spec_range_bricks(
                            cx + 1,
                            ix_max as int,
                            iy_min as int,
                            iy_max as int,
                        ),
                        cands@,
                    ) == full,
                    forall|j: int|
                        0 <= j < cands@.len() ==> (#[trigger] cands@[j]) < self.bricks@.len(),
                decreases iy_max + 1 - cy,
            {
                let cell: Vec<usize> = self.hash_grid.get_bricks_in_cell(cx, cy);
                let ghost colrest = g.spec_col_bricks(cx as int, cy + 1, iy_max as int);
                let ghost rangerest = g.spec_range_bricks(
                    cx + 1,
                    ix_max as int,
                    iy_min as int,
                    iy_max as int,
                );
                proof {
                    assert((cell@ + colrest) + rangerest =~= cell@ + (colrest + rangerest));
                    assert(cell@.skip(0) =~= cell@);
                }
                let mut t: usize = 0;
                while t < cell.len()
                    invariant
                        self.hash_grid == g,
                        self.grid_ids_valid(),
                        t <= cell@.len(),
                        cell@ == g.spec_cell(cx as int, cy as int),
                        spec_dedup_from(
                            cell@.skip(t as int) + (colrest + rangerest),
                            cands@,
                        ) == full,
                        forall|j: int|
                            0 <= j < cands@.len() ==> (#[trigger] cands@[j]) < self.bricks@.len(),
                    decreases cell@.len() - t,
                {
                    let id: usize = cell[t];
                    proof {
                        assert(g.spec_cell(cx as int, cy as int)[t as int]
                            < self.bricks@.len());
                        let rem = cell@.skip(t as int) + (colrest + rangerest);
                        assert(rem[0] == cell@[t as int]);
                        assert(rem.drop_first() =~= cell@.skip(t + 1) + (colrest + rangerest));
                    }
                    push_unique(&mut cands, id);
                    t = t + 1;
                }
                proof {
                    assert(cell@.skip(cell@.len() as int) =~= Seq::<usize>::empty());
                    assert(Seq::<usize>::empty() + (colrest + rangerest) =~= colrest + rangerest);
                }
                cy = cy + 1;
            }
            proof {
                assert(g.spec_col_bricks(cx as int, iy_max + 1, iy_max as int)
                    =~= Seq::<usize>::empty());
                assert(Seq::<usize>::empty() + g.spec_range_bricks(
                    cx + 1,
                    ix_max as int,
                    iy_min as int,
                    iy_max as int,
                ) =~= g.spec_range_bricks(cx + 1, ix_max as int, iy_min as int, iy_max as int));
            }
            cx = cx + 1;
        }
        cands
    }

    /// Record the input collaborator's intent for the coming frame:
    /// keyboard rotation flags, the fire flag, and an optional pointer aim
    /// angle in milliradians which, while present, takes precedence over
    /// keyboard rotation.
    pub fn set_input(&mut self, left: bool, right: bool, firing: bool, pointer_aim: Option<i64>)
        ensures
            final(self).left_pressed == left,
            final(self).right_pressed == right,
            final(self).fire_pressed == firing,
            final(self).pointer_aim == pointer_aim,
            final(self).cannon_x == old(self).cannon_x,
            final(self).cannon_y == old(self).cannon_y,
            final(self).theta == old(self).theta,
            final(self).bullets == old(self).bullets,
            final(self).bricks == old(self).bricks,
            final(self).particles == old(self).particles,
            final(self).weapon == old(self).weapon,
            final(self).hash_grid == old(self).hash_grid,
            final(self).score == old(self).score,
            final(self).rng == old(self).rng,
            old(self).wf() ==> final(self).wf(),
    {
        self.left_pressed = left;
        self.right_pressed = right;
        self.fire_pressed = firing;
        self.pointer_aim = pointer_aim;
    }

    /// Create `count` particles at `(x, y)`, each with the full lifetime,
    /// the given colour, and a random direction and speed.  Touches only
    /// the particle collection and the generator: spawning is cosmetic and
    /// can never feed back into collisions or the score.
    pub fn spawn_particles(&mut self, x: i64, y: i64, count: u32, color: Rgba)
        requires
            spec_abs(x as int) <= 1600,
            spec_abs(y as int) <= 1600,
            color_wf(color),
        ensures
            final(self).particles@.len() == old(self).particles@.len() + count,
            forall|j: int|
                0 <= j < old(self).particles@.len() ==> #[trigger] final(self).particles@[j] == old(self).particles@[j],
            forall|j: int|
                old(self).particles@.len() <= j < final(self).particles@.len() ==> (
                #[trigger] final(self).particles@[j]).lifetime == 500 && particle_wf(
                    final(self).particles@[j],
                ) && final(self).particles@[j].x == x && final(self).particles@[j].y == y && final(self).particles@[j].color == color && final(self).particles@[j].dx == spec_particle_vel(
                    spec_rng_pairs(
                        old(self).rng.state,
                        (j - old(self).particles@.len()) as nat,
                    ),
                ).0 && final(self).particles@[j].dy == spec_particle_vel(
                    spec_rng_pairs(
                        old(self).rng.state,
                        (j - old(self).particles@.len()) as nat,
                    ),
                ).1,
            final(self).rng.state == spec_rng_pairs(old(self).rng.state, count as nat),
            final(self).particles@ == old(self).particles@ + spec_spawned(
                old(self).rng.state,
                x,
                y,
                count as nat,
                color,
            ),
            final(self).bricks == old(self).bricks,
            final(self).bullets == old(self).bullets,
            final(self).score == old(self).score,
            final(self).weapon == old(self).weapon,
            final(self).theta == old(self).theta,
            final(self).hash_grid == old(self).hash_grid,
            final(self).cannon_x == old(self).cannon_x,
            final(self).cannon_y == old(self).cannon_y,
            final(self).left_pressed == old(self).left_pressed,
            final(self).right_pressed == old(self).right_pressed,
            final(self).fire_pressed == old(self).fire_pressed,
            final(self).pointer_aim == old(self).pointer_aim,
    {
        let mut k: u32 = 0;
        while k < count
            invariant
                k <= count,
                spec_abs(x as int) <= 1600,
                spec_abs(y as int) <= 1600,
                color_wf(color),
                self.particles@.len() == old(self).particles@.len() + k,
                forall|j: int|
                    0 <= j < old(self).particles@.len() ==> #[trigger] self.particles@[j] == old(self).particles@[j],
                forall|j: int|
                    old(self).particles@.len() <= j < self.particles@.len() ==> (
                    #[trigger] self.particles@[j]).lifetime == 500 && particle_wf(
                        self.particles@[j],
                    ) && self.particles@[j].x == x && self.particles@[j].y == y
                        && self.particles@[j].color == color && self.particles@[j].dx
                        == spec_particle_vel(
                        spec_rng_pairs(
                            old(self).rng.state,
                            (j - old(self).particles@.len()) as nat,
                        ),
                    ).0 && self.particles@[j].dy == spec_particle_vel(
                        spec_rng_pairs(
                            old(self).rng.state,
                            (j - old(self).particles@.len()) as nat,
                        ),
                    ).1,
                self.rng.state == spec_rng_pairs(old(self).rng.state, k as nat),
                self.particles@ == old(self).particles@ + spec_spawned(
                    old(self).rng.state,
                    x,
                    y,
                    k as nat,
                    color,
                ),
                self.bricks == old(self).bricks,
                self.bullets == old(self).bullets,
                self.score == old(self).score,
                self.weapon == old(self).weapon,
                self.theta == old(self).theta,
                self.hash_grid == old(self).hash_grid,
                self.cannon_x == old(self).cannon_x,
                self.cannon_y == old(self).cannon_y,
                self.left_pressed == old(self).left_pressed,
                self.right_pressed == old(self).right_pressed,
                self.fire_pressed == old(self).fire_pressed,
                self.pointer_aim == old(self).pointer_aim,
            decreases count - k,
        {
            let a: i64 = self.rng.range_i64(0, TWO_PI_MRAD - 1);
            let t: i64 = if a > PI_MRAD {
                a - TWO_PI_MRAD
            } else {
                a
            };
            let spd: i64 = self.rng.range_i64(0, PARTICLE_SPEED);
            let c: i64 = cos_mrad(t);
            let s: i64 = sin_mrad(t);
            let dx: i64 = mul_unit(spd, c);
            let dy: i64 = mul_unit(spd, s);
            proof {
                assert(spec_abs(spd as int) * spec_abs(c as int) <= 200000 && spec_abs(spd as int)
                    * spec_abs(s as int) <= 200000) by (nonlinear_arith)
                    requires
                        0 <= spd as int <= 200,
                        spec_abs(c as int) <= 1000,
                        spec_abs(s as int) <= 1000,
                {
                }
            }
            self.particles.push(Particle { x, y, dx, dy, lifetime: PARTICLE_LIFETIME, color });
            k = k + 1;
        }
    }

    /// Build the initial game: a 10 by 10 grid of bricks of health 5 with
    /// a small random positional jitter, coloured by horizontal position,
    /// a spatial index over that geometry, and the cannon at the bottom
    /// centre.  The whole run is determined by `seed`.
    pub fn new(seed: u64) -> (s: GameState)
        ensures
            s.wf(),
            s.score == 0,
            s.theta == 0,
            s.cannon_x == 0,
            s.cannon_y == -900,
            s.bullets@.len() == 0,
            s.particles@.len() == 0,
            !s.left_pressed,
            !s.right_pressed,
            !s.fire_pressed,
            s.pointer_aim is None,
            s.weapon.cooldown_timer == 0,
            s.weapon.cooldown_min == 5,
            s.weapon.cooldown_max == 15,
            s.weapon.angle_spread == 100,
            s.weapon.speed_min == 800,
            s.weapon.speed_max == 1200,
            s.weapon.bullet_radius == 10,
            s.bricks@.len() == 100,
            forall|k: int| 0 <= k < 100 ==> initial_brick_ok(#[trigger] s.bricks@[k], k),
            forall|k: int|
                0 <= k < 100 ==> #[trigger] s.bricks@[k] == spec_initial_brick(
                    k,
                    spec_rng_pairs(crate::rng::spec_seed_state(seed), k as nat),
                ),
            s.rng.state == spec_rng_pairs(crate::rng::spec_seed_state(seed), 100),
            count_alive(s.bricks@) == 100,
            s.hash_grid.cell_width == 100,
            s.hash_grid.cell_height == 100,
            s.hash_grid.grid_width == 20,
            s.hash_grid.grid_height == 20,
    {
        let mut rng = Rng::new(seed);
        let ghost st0 = rng.state;
        let total: usize = NUM_ROWS * NUM_COLS;
        let mut bricks: Vec<Brick> = Vec::new();
        let mut k: usize = 0;
        while k < total
            invariant
                total == 100,
                k <= 100,
                bricks@.len() == k,
                rng.state == spec_rng_pairs(st0, k as nat),
                forall|i: int| 0 <= i < k ==> initial_brick_ok(#[trigger] bricks@[i], i),
                forall|i: int|
                    0 <= i < k ==> #[trigger] bricks@[i] == spec_initial_brick(
                        i,
                        spec_rng_pairs(st0, i as nat),
                    ),
            decreases 100 - k,
        {
            let row: i64 = (k as i64) / (NUM_COLS as i64);
            let col: i64 = (k as i64) % (NUM_COLS as i64);
            let ox: i64 = rng.range_i64(-MAX_OFFSET, MAX_OFFSET);
            let oy: i64 = rng.range_i64(-MAX_OFFSET, MAX_OFFSET);
            let x: i64 = -545 + col * (BRICK_WIDTH + BRICK_SPACING) + ox;
            let y: i64 = -90 + row * (BRICK_WIDTH + BRICK_SPACING) + oy;
            let hue: i64 = (x + 1000) * 180;
            let color: Rgba = hsv_to_rgb(hue, 700, 1000);
            bricks.push(
                Brick {
                    left: x,
                    bottom: y,
                    right: x + BRICK_WIDTH,
                    top: y + BRICK_HEIGHT,
                    health: BRICK_START_HEALTH,
                    base_color: color,
                    hit_timer: 0,
                },
            );
            k = k + 1;
        }
        let mut hash_grid = HashGrid::new(BRICK_WIDTH, BRICK_HEIGHT, 20, 20);
        let mut idx: usize = 0;
        while idx < 100
            invariant
                idx <= 100,
                bricks@.len() == 100,
                forall|i: int| 0 <= i < 100 ==> initial_brick_ok(#[trigger] bricks@[i], i),
                hash_grid.wf(),
                hash_grid.cell_width == 100,
                hash_grid.cell_height == 100,
                hash_grid.grid_width == 20,
                hash_grid.grid_height == 20,
                forall|ix: int, iy: int, j: int|
                    0 <= j < hash_grid.spec_cell(ix, iy).len() ==> (#[trigger] hash_grid.spec_cell(
                        ix,
                        iy,
                    )[j]) < idx,
                forall|m: int, ix: int, iy: int|
                    0 <= m < idx && #[trigger] hash_grid.covers(
                        bricks@[m].left as int,
                        bricks@[m].bottom as int,
                        bricks@[m].right as int,
                        bricks@[m].top as int,
                        ix,
                        iy,
                    ) ==> hash_grid.spec_cell(ix, iy).contains(m as usize),
            decreases 100 - idx,
        {
            let b: Brick = bricks[idx];
            let ghost before = hash_grid;
            hash_grid.add_brick(idx, b.left, b.bottom, b.right, b.top);
            proof {
                assert forall|ix: int, iy: int, j: int|
                    0 <= j < hash_grid.spec_cell(ix, iy).len() implies (
                #[trigger] hash_grid.spec_cell(ix, iy)[j]) < idx + 1 by {
                    let oldcell = before.spec_cell(ix, iy);
                    if j < oldcell.len() {
                        assert(oldcell[j] < idx);
                    }
                }
                assert forall|m: int, ix: int, iy: int|
                    0 <= m < idx + 1 && #[trigger] hash_grid.covers(
                        bricks@[m].left as int,
                        bricks@[m].bottom as int,
                        bricks@[m].right as int,
                        bricks@[m].top as int,
                        ix,
                        iy,
                    ) implies hash_grid.spec_cell(ix, iy).contains(m as usize) by {
                    let oldcell = before.spec_cell(ix, iy);
                    let newcell = hash_grid.spec_cell(ix, iy);
                    assert(before.covers(
                        bricks@[m].left as int,
                        bricks@[m].bottom as int,
                        bricks@[m].right as int,
                        bricks@[m].top as int,
                        ix,
                        iy,
                    ));
                    if m < idx {
                        assert(oldcell.contains(m as usize));
                        let wi = choose|wi: int|
                            0 <= wi < oldcell.len() && oldcell[wi] == m as usize;
                        assert(newcell[wi] == m as usize);
                    } else {
                        assert(newcell == oldcell.push(idx));
                        assert(newcell[newcell.len() - 1] == idx as usize);
                    }
                }
            }
            idx = idx + 1;
        }
        let s = GameState {
            cannon_x: 0,
            cannon_y: CANNON_Y,
            theta: 0,
            bullets: Vec::new(),
            bricks,
            particles: Vec::new(),
            left_pressed: false,
            right_pressed: false,
            fire_pressed: false,
            pointer_aim: None,
            weapon: SimpleCannon::new(),
            hash_grid,
            score: 0,
            rng,
        };
        proof {
            assert forall|i: int| 0 <= i < s.bricks@.len() implies (#[trigger] s.bricks@[i]).health
                > 0 by {
                assert(initial_brick_ok(s.bricks@[i], i));
            }
            lemma_count_alive_all(s.bricks@);
            assert forall|i: int| 0 <= i < s.bricks@.len() implies brick_wf(
                #[trigger] s.bricks@[i],
            ) by {
                assert(initial_brick_ok(s.bricks@[i], i));
            }
        }
        s
    }

    /// Advance the simulation by one frame of `delta_time` milliseconds:
    /// aim, fire, integrate and bounce bullets, resolve bullet-brick
    /// collisions with damage and scoring, spawn the queued particle
    /// bursts, and prune dead bullets, expired particles and finished
    /// flash timers.
    ///
    /// The generator is a field, so the whole frame is a pure function of
    /// the old state and `delta_time`; the last `ensures` clause pins it:
    /// the shot (if the frame fires) and its muzzle flash, then the fold
    /// of integration and narrow-phase resolution over the live list with
    /// candidates drawn from the grid, then the queued bursts, and finally
    /// the exact live bullet set (`spec_live_bullets`, in order), the
    /// flash-decayed bricks, the aged surviving particles, the score and
    /// the generator state.  The clauses before it state the frame's laws
    /// a reader checks first: brick geometry and colours never change and
    /// health only falls; a brick's flash timer is rearmed exactly when
    /// the brick was damaged and decays saturating at 0; the score grows
    /// by exactly the number of bricks destroyed this frame; the aim
    /// angle is the clamped intent; every surviving bullet has health and
    /// sits above the bottom edge; every surviving particle still has
    /// lifetime; and the particle count is exactly the survivors of the
    /// old ones plus the fresh ones: 5 for a muzzle flash, 3 per point of
    /// damage dealt, 10 per brick destroyed.
    #[verifier::rlimit(100)]
    pub fn update(&mut self, delta_time: u32)
        requires
            old(self).wf(),
        ensures
            final(self).wf(),
            final(self).bricks@.len() == old(self).bricks@.len(),
            forall|i: int|
                0 <= i < old(self).bricks@.len() ==> (#[trigger] final(self).bricks@[i]).left
                    == old(self).bricks@[i].left && final(self).bricks@[i].right == old(self).bricks@[i].right && final(self).bricks@[i].bottom == old(self).bricks@[i].bottom
                    && final(self).bricks@[i].top == old(self).bricks@[i].top && final(self).bricks@[i].base_color == old(self).bricks@[i].base_color,
            forall|i: int|
                0 <= i < old(self).bricks@.len() ==> (#[trigger] final(self).bricks@[i]).health
                    <= old(self).bricks@[i].health,
            forall|i: int|
                0 <= i < old(self).bricks@.len() ==> (#[trigger] final(self).bricks@[i]).hit_timer
                    == spec_sat_sub(
                    (if final(self).bricks@[i].health < old(self).bricks@[i].health {
                        100int
                    } else {
                        old(self).bricks@[i].hit_timer as int
                    }),
                    delta_time as int,
                ),
            final(self).score == old(self).score + count_alive(old(self).bricks@) - count_alive(
                final(self).bricks@,
            ),
            count_alive(final(self).bricks@) <= count_alive(old(self).bricks@),
            final(self).theta == spec_clamp(spec_aim(*old(self), delta_time as int), -1571, 1571),
            final(self).weapon.same_config(&old(self).weapon),
            final(self).weapon.wf(),
            !spec_fires(*old(self), delta_time as int) ==> final(self).weapon.cooldown_timer
                == spec_sat_sub(old(self).weapon.cooldown_timer as int, delta_time as int),
            forall|i: int|
                0 <= i < final(self).bullets@.len() ==> (#[trigger] final(self).bullets@[i]).health
                    > 0 && final(self).bullets@[i].y - final(self).bullets@[i].radius >= -1000
                    && final(self).bullets@[i].y + final(self).bullets@[i].radius <= 1000
                    && spec_abs(final(self).bullets@[i].x as int) + final(self).bullets@[i].radius
                    <= 1000,
            final(self).bullets@.len() <= old(self).bullets@.len() + 1,
            !spec_fires(*old(self), delta_time as int) ==> final(self).bullets@.len() <= old(self).bullets@.len(),
            forall|i: int|
                0 <= i < final(self).particles@.len() ==> (
                #[trigger] final(self).particles@[i]).lifetime > 0,
            final(self).particles@.len() == count_outliving(
                old(self).particles@,
                delta_time as int,
            ) + (if delta_time < 500 {
                (if spec_fires(*old(self), delta_time as int) {
                    MUZZLE_BURST as int
                } else {
                    0int
                }) + 3 * (total_health(old(self).bricks@) - total_health(final(self).bricks@)) + 10
                    * (count_alive(old(self).bricks@) - count_alive(final(self).bricks@))
            } else {
                0int
            }),
            final(self).cannon_x == old(self).cannon_x,
            final(self).cannon_y == old(self).cannon_y,
            final(self).hash_grid == old(self).hash_grid,
            final(self).left_pressed == old(self).left_pressed,
            final(self).right_pressed == old(self).right_pressed,
            final(self).fire_pressed == old(self).fire_pressed,
            final(self).pointer_aim == old(self).pointer_aim,
            ({
                let dti = delta_time as int;
                let f = spec_friction_ppm(delta_time as nat);
                let theta2 = spec_clamp(spec_aim(*old(self), dti), -1571, 1571);
                let fired = spec_fires(*old(self), dti);
                let st0 = old(self).rng.state;
                let shot = spec_shot(
                    old(self).weapon,
                    old(self).cannon_x as int,
                    old(self).cannon_y as int,
                    theta2,
                    st0,
                );
                let st1 = old(self).weapon.rng_after_fire(st0);
                let tipx = old(self).cannon_x + spec_mul_unit(100, spec_sin_mrad(theta2));
                let tipy = old(self).cannon_y + spec_mul_unit(100, spec_cos_mrad(theta2));
                let flash = spec_spawned(
                    st1,
                    (-tipx) as i64,
                    tipy as i64,
                    5,
                    (Rgba { r: 1000, g: 500, b: 0, a: 1000 }),
                );
                let start_bullets = if fired {
                    old(self).bullets@.push(shot)
                } else {
                    old(self).bullets@
                };
                let start_particles = if fired {
                    old(self).particles@ + flash
                } else {
                    old(self).particles@
                };
                let st2 = if fired {
                    spec_rng_pairs(st1, 5)
                } else {
                    st0
                };
                let resolved = spec_resolve_bullets(
                    old(self).hash_grid,
                    dti,
                    f,
                    start_bullets,
                    old(self).bricks@,
                    old(self).score as int,
                    Seq::<Burst>::empty(),
                );
                let sprayed = spec_spawn_bursts(st2, start_particles, resolved.3);
                &&& final(self).bullets@ == spec_live_bullets(resolved.0)
                &&& final(self).bricks@.len() == resolved.1.len()
                &&& forall|i: int|
                    0 <= i < resolved.1.len() ==> #[trigger] final(self).bricks@[i]
                        == spec_tick_brick(resolved.1[i], dti)
                &&& final(self).score == resolved.2
                &&& final(self).particles@ == spec_age_particles(sprayed.0, dti)
                &&& final(self).rng.state == sprayed.1
                &&& (fired ==> old(self).weapon.reset_ok(
                    st0,
                    final(self).weapon.cooldown_timer,
                ))
            }),
    {
        let dt: u32 = delta_time;
        // Aiming: pointer aim overrides keyboard rotation; the angle is
        // clamped either way.
        let aim: i64 = match self.pointer_aim {
            Some(a) => a,
            None => {
                let mut t: i64 = self.theta;
                let step: i64 = mul_unit(ROTATION_SPEED, dt as i64);
                if self.left_pressed {
                    t = t + step;
                }
                if self.right_pressed {
                    t = t - step;
                }
                t
            },
        };
        self.theta = clamp_i64(aim, -1571, 1571);
        // Firing: tick the cooldown, then fire while the intent is set,
        // appending the bullet and a muzzle flash of 5 particles at the
        // mirrored muzzle tip.
        self.weapon.update(dt);
        let mut fired: bool = false;
        if self.fire_pressed {
            let shot: Option<Bullet> = self.weapon.try_fire(
                self.cannon_x,
                self.cannon_y,
                self.theta,
                &mut self.rng,
            );
            match shot {
                Some(bullet) => {
                    self.bullets.push(bullet);
                    let si: i64 = sin_mrad(self.theta);
                    let ci: i64 = cos_mrad(self.theta);
                    let tip_x: i64 = self.cannon_x + mul_unit(CANNON_LENGTH, si);
                    let tip_y: i64 = self.cannon_y + mul_unit(CANNON_LENGTH, ci);
                    self.spawn_particles(-tip_x, tip_y, 5, Rgba { r: 1000, g: 500, b: 0, a: 1000 });
                    fired = true;
                },
                None => {},
            }
        }
        let ghost bulletsa = self.bullets@;
        let ghost parta = self.particles@;
        let ghost weapona = self.weapon;
        let ghost thetaa = self.theta;
        let ghost rng_after_phase_b = self.rng;
        proof {
            assert(fired == spec_fires(*old(self), dt as int));
            assert(self.bricks@ == old(self).bricks@);
            assert(self.score == old(self).score);
            if fired {
                assert(bulletsa == old(self).bullets@.push(
                    spec_shot(
                        old(self).weapon,
                        old(self).cannon_x as int,
                        old(self).cannon_y as int,
                        self.theta as int,
                        old(self).rng.state,
                    ),
                ));
                assert(parta == old(self).particles@ + spec_spawned(
                    old(self).weapon.rng_after_fire(old(self).rng.state),
                    (-(old(self).cannon_x + spec_mul_unit(
                        100,
                        spec_sin_mrad(self.theta as int),
                    ))) as i64,
                    (old(self).cannon_y + spec_mul_unit(
                        100,
                        spec_cos_mrad(self.theta as int),
                    )) as i64,
                    5,
                    (Rgba { r: 1000, g: 500, b: 0, a: 1000 }),
                ));
                assert(rng_after_phase_b.state == spec_rng_pairs(
                    old(self).weapon.rng_after_fire(old(self).rng.state),
                    5,
                ));
                assert(old(self).weapon.reset_ok(old(self).rng.state, self.weapon.cooldown_timer));
            } else {
                assert(bulletsa == old(self).bullets@);
                assert(parta == old(self).particles@);
                assert(rng_after_phase_b.state == old(self).rng.state);
            }
            assert(bulletsa.len() == old(self).bullets@.len() + (if fired {
                1int
            } else {
                0int
            }));
            assert(forall|j: int| 0 <= j < bulletsa.len() ==> bullet_wf(#[trigger] bulletsa[j]));
            assert(parta.len() == old(self).particles@.len() + (if fired {
                5int
            } else {
                0int
            }));
            assert(forall|j: int|
                0 <= j < old(self).particles@.len() ==> #[trigger] parta[j] == old(self).particles@[j]);
            assert(forall|j: int|
                old(self).particles@.len() <= j < parta.len() ==> (#[trigger] parta[j]).lifetime
                    == 500 && particle_wf(parta[j]));
        }
        // Bullet physics and collisions: integrate each bullet, query the
        // grid for the cells its bounding box covers, deduplicate the
        // candidate bricks, and run the narrow phase.
        let f: i64 = friction_factor_ppm(dt);
        let mut bursts: Vec<Burst> = Vec::new();
        let ghost rnga = self.rng;
        proof {
            assert(bulletsa.skip(0) =~= bulletsa);
            assert(self.bullets@.take(0) =~= Seq::<Bullet>::empty());
            assert(Seq::<Bullet>::empty() + spec_resolve_bullets(
                old(self).hash_grid,
                dt as int,
                f as int,
                bulletsa,
                old(self).bricks@,
                old(self).score as int,
                Seq::<Burst>::empty(),
            ).0 =~= spec_resolve_bullets(
                old(self).hash_grid,
                dt as int,
                f as int,
                bulletsa,
                old(self).bricks@,
                old(self).score as int,
                Seq::<Burst>::empty(),
            ).0);
        }
        let n: usize = self.bullets.len();
        let mut bi: usize = 0;
        while bi < n
            invariant
                old(self).wf(),
                bi <= n,
                0 <= f <= 1000000,
                self.bullets@.len() == n,
                n == bulletsa.len(),
                forall|j: int| bi <= j < n ==> #[trigger] self.bullets@[j] == bulletsa[j],
                forall|j: int| 0 <= j < n ==> bullet_wf(#[trigger] bulletsa[j]),
                forall|j: int|
                    0 <= j < bi ==> 0 < (#[trigger] self.bullets@[j]).radius <= 500 && spec_abs(
                        self.bullets@[j].x as int,
                    ) + self.bullets@[j].radius <= 1000 && self.bullets@[j].y
                        + self.bullets@[j].radius <= 1000 && self.bullets@[j].y >= -1000 - 3 * (
                    dt as int) && spec_abs(self.bullets@[j].dx as int) <= 2000 && spec_abs(
                        self.bullets@[j].dy as int,
                    ) <= 2000,
                self.bricks@.len() == old(self).bricks@.len(),
                forall|i: int| 0 <= i < self.bricks@.len() ==> brick_wf(#[trigger] self.bricks@[i]),
                forall|i: int|
                    0 <= i < self.bricks@.len() ==> (#[trigger] self.bricks@[i]).left == old(self).bricks@[i].left && self.bricks@[i].right == old(self).bricks@[i].right
                        && self.bricks@[i].bottom == old(self).bricks@[i].bottom
                        && self.bricks@[i].top == old(self).bricks@[i].top
                        && self.bricks@[i].base_color == old(self).bricks@[i].base_color,
                forall|i: int|
                    0 <= i < self.bricks@.len() ==> (#[trigger] self.bricks@[i]).health <= old(self).bricks@[i].health,
                forall|i: int|
                    0 <= i < self.bricks@.len() ==> ((#[trigger] self.bricks@[i]).health < old(self).bricks@[i].health ==> self.bricks@[i].hit_timer == 100),
                forall|i: int|
                    0 <= i < self.bricks@.len() ==> ((#[trigger] self.bricks@[i]).health == old(self).bricks@[i].health ==> self.bricks@[i].hit_timer == old(self).bricks@[i].hit_timer),
                self.score == old(self).score + count_alive(old(self).bricks@) - count_alive(
                    self.bricks@,
                ),
                count_alive(self.bricks@) <= count_alive(old(self).bricks@),
                total_health(self.bricks@) <= total_health(old(self).bricks@),
                self.score + count_alive(self.bricks@) <= u32::MAX,
                burst_total(bursts@) == 3 * (total_health(old(self).bricks@) - total_health(
                    self.bricks@,
                )) + 10 * (count_alive(old(self).bricks@) - count_alive(self.bricks@)),
                forall|j: int| 0 <= j < bursts@.len() ==> burst_wf(#[trigger] bursts@[j]),
                self.particles@ == parta,
                self.weapon == weapona,
                self.theta == thetaa,
                self.rng == rnga,
                self.hash_grid == old(self).hash_grid,
                self.cannon_x == old(self).cannon_x,
                self.cannon_y == old(self).cannon_y,
                self.left_pressed == old(self).left_pressed,
                self.right_pressed == old(self).right_pressed,
                self.fire_pressed == old(self).fire_pressed,
                self.pointer_aim == old(self).pointer_aim,
                ({
                    let rr = spec_resolve_bullets(
                        old(self).hash_grid,
                        dt as int,
                        f as int,
                        bulletsa.skip(bi as int),
                        self.bricks@,
                        self.score as int,
                        bursts@,
                    );
                    let r0 = spec_resolve_bullets(
                        old(self).hash_grid,
                        dt as int,
                        f as int,
                        bulletsa,
                        old(self).bricks@,
                        old(self).score as int,
                        Seq::<Burst>::empty(),
                    );
                    &&& self.bullets@.take(bi as int) + rr.0 == r0.0
                    &&& rr.1 == r0.1
                    &&& rr.2 == r0.2
                    &&& rr.3 == r0.3
                }),
            decreases n - bi,
        {
            let mut b: Bullet = self.bullets[bi];
            integrate_bullet(&mut b, dt, f);
            let ghost ib = b;
            let bl: i64 = b.x - b.radius;
            let bb: i64 = b.y - b.radius;
            let br_: i64 = b.x + b.radius;
            let bt: i64 = b.y + b.radius;
            proof {
                assert forall|ix: int, iy: int, j: int|
                    0 <= j < self.hash_grid.spec_cell(ix, iy).len() implies (
                #[trigger] self.hash_grid.spec_cell(ix, iy)[j]) < self.bricks@.len() by {
                    assert(old(self).grid_ids_valid());
                    assert(self.hash_grid.spec_cell(ix, iy) == old(self).hash_grid.spec_cell(
                        ix,
                        iy,
                    ));
                }
            }
            let cands: Vec<usize> = self.gather_candidates(bl, bb, br_, bt);
            let ghost bricksb = self.bricks@;
            let ghost bulletb = b;
            let ghost scoreb = self.score;
            let ghost burstsb = bursts@;
            apply_hits(&mut self.bricks, &mut b, &cands, &mut self.score, &mut bursts);
            proof {
                lemma_collide_props(bricksb, bulletb, scoreb as int, burstsb, cands@);
            }
            let ghost bullets_pre = self.bullets@;
            let ghost prefix = self.bullets@.take(bi as int);
            self.bullets[bi] = b;
            proof {
                assert(bulletsa.skip(bi as int)[0] == bulletsa[bi as int]);
                assert(bulletsa.skip(bi as int).drop_first() =~= bulletsa.skip(bi + 1));
                assert(ib == spec_integrated(bulletsa[bi as int], dt as int, f as int));
                assert(self.bullets@.take(bi + 1) =~= prefix.push(b));
                assert(self.bullets@.take(bi as int) =~= prefix);
                let rest = spec_resolve_bullets(
                    old(self).hash_grid,
                    dt as int,
                    f as int,
                    bulletsa.skip(bi + 1),
                    self.bricks@,
                    self.score as int,
                    bursts@,
                );
                assert(prefix.push(b) + rest.0 =~= prefix + (seq![b] + rest.0));
            }
            bi = bi + 1;
        }
        let ghost frame_fold = spec_resolve_bullets(
            old(self).hash_grid,
            dt as int,
            f as int,
            bulletsa,
            old(self).bricks@,
            old(self).score as int,
            Seq::<Burst>::empty(),
        );
        proof {
            assert(bulletsa.skip(n as int) =~= Seq::<Bullet>::empty());
            assert(self.bullets@.take(n as int) =~= self.bullets@);
            assert(self.bullets@ + Seq::<Bullet>::empty() =~= self.bullets@);
            assert(self.bullets@ == frame_fold.0);
            assert(self.bricks@ == frame_fold.1);
            assert(self.score as int == frame_fold.2);
            assert(bursts@ == frame_fold.3);
        }
        // Materialise the queued impact and destruction bursts.
        let ghost bursts_all = bursts@;
        let ghost bricksc = self.bricks@;
        let ghost bulletsc = self.bullets@;
        let ghost scorec = self.score;
        let ghost burst_spawn = spec_spawn_bursts(rnga.state, parta, bursts_all);
        proof {
            assert(bursts_all.take(0) =~= Seq::<Burst>::empty());
            assert(bursts_all.skip(0) =~= bursts_all);
        }
        let nb: usize = bursts.len();
        let mut bk: usize = 0;
        while bk < nb
            invariant
                bk <= nb,
                nb == bursts_all.len(),
                bursts@ == bursts_all,
                spec_spawn_bursts(self.rng.state, self.particles@, bursts_all.skip(bk as int))
                    == burst_spawn,
                forall|j: int| 0 <= j < bursts_all.len() ==> burst_wf(#[trigger] bursts_all[j]),
                self.particles@.len() == parta.len() + burst_total(bursts_all.take(bk as int)),
                forall|j: int| 0 <= j < parta.len() ==> #[trigger] self.particles@[j] == parta[j],
                forall|j: int|
                    parta.len() <= j < self.particles@.len() ==> (
                    #[trigger] self.particles@[j]).lifetime == 500 && particle_wf(
                        self.particles@[j],
                    ),
                self.bricks@ == bricksc,
                self.bullets@ == bulletsc,
                self.score == scorec,
                self.weapon == weapona,
                self.theta == thetaa,
                self.hash_grid == old(self).hash_grid,
                self.cannon_x == old(self).cannon_x,
                self.cannon_y == old(self).cannon_y,
                self.left_pressed == old(self).left_pressed,
                self.right_pressed == old(self).right_pressed,
                self.fire_pressed == old(self).fire_pressed,
                self.pointer_aim == old(self).pointer_aim,
            decreases nb - bk,
        {
            let bu: Burst = bursts[bk];
            let ghost pmid = self.particles@;
            proof {
                assert(bursts_all.skip(bk as int)[0] == bursts_all[bk as int]);
                assert(bursts_all.skip(bk as int).drop_first() =~= bursts_all.skip(bk + 1));
            }
            self.spawn_particles(bu.x, bu.y, bu.count, bu.color);
            proof {
                assert(bursts_all.take(bk + 1) =~= bursts_all.take(bk as int).push(
                    bursts_all[bk as int],
                ));
                lemma_burst_total_push(bursts_all.take(bk as int), bursts_all[bk as int]);
                lemma_burst_total_nonneg(bursts_all.take(bk as int));
                assert forall|j: int| 0 <= j < parta.len() implies #[trigger] self.particles@[j]
                    == parta[j] by {
                    assert(pmid[j] == parta[j]);
                    assert(self.particles@[j] == pmid[j]);
                }
                assert forall|j: int|
                    parta.len() <= j < self.particles@.len() implies (
                #[trigger] self.particles@[j]).lifetime == 500 && particle_wf(
                    self.particles@[j],
                ) by {
                    if j < pmid.len() {
                        assert(pmid[j].lifetime == 500 && particle_wf(pmid[j]));
                        assert(self.particles@[j] == pmid[j]);
                    }
                }
            }
            bk = bk + 1;
        }
        proof {
            assert(bursts_all.take(nb as int) =~= bursts_all);
            assert(bursts_all.skip(nb as int) =~= Seq::<Burst>::empty());
            assert(self.particles@ == burst_spawn.0);
            assert(self.rng.state == burst_spawn.1);
        }
        // Remove bullets that are out of health or fell through the
        // bottom edge.
        let ghost bulletsd = self.bullets@;
        let mut kept_bullets: Vec<Bullet> = Vec::new();
        let mut ki: usize = 0;
        proof {
            assert(bulletsd.take(0) =~= Seq::<Bullet>::empty());
        }
        while ki < self.bullets.len()
            invariant
                ki <= self.bullets@.len(),
                self.bullets@ == bulletsd,
                kept_bullets@ == spec_live_bullets(bulletsd.take(ki as int)),
                forall|j: int|
                    0 <= j < bulletsd.len() ==> 0 < (#[trigger] bulletsd[j]).radius <= 500
                        && spec_abs(bulletsd[j].x as int) + bulletsd[j].radius <= 1000
                        && bulletsd[j].y + bulletsd[j].radius <= 1000 && bulletsd[j].y >= -1000 - 3
                        * (dt as int) && spec_abs(bulletsd[j].dx as int) <= 2000 && spec_abs(
                        bulletsd[j].dy as int,
                    ) <= 2000,
                kept_bullets@.len() <= ki,
                forall|j: int|
                    0 <= j < kept_bullets@.len() ==> bullet_wf(#[trigger] kept_bullets@[j])
                        && kept_bullets@[j].health > 0 && kept_bullets@[j].y
                        - kept_bullets@[j].radius >= -1000 && kept_bullets@[j].y
                        + kept_bullets@[j].radius <= 1000 && spec_abs(kept_bullets@[j].x as int)
                        + kept_bullets@[j].radius <= 1000,
            decreases self.bullets@.len() - ki,
        {
            let b: Bullet = self.bullets[ki];
            proof {
                assert(bulletsd.take(ki + 1) =~= bulletsd.take(ki as int).push(
                    bulletsd[ki as int],
                ));
                assert(bulletsd.take(ki + 1).drop_last() =~= bulletsd.take(ki as int));
            }
            if b.health > 0 && b.y - b.radius >= -1000 {
                kept_bullets.push(b);
            }
            ki = ki + 1;
        }
        proof {
            assert(bulletsd.take(bulletsd.len() as int) =~= bulletsd);
        }
        self.bullets = kept_bullets;
        // Decay the hit-flash timers, saturating at 0.
        let ghost bricksd = self.bricks@;
        let mut timed_bricks: Vec<Brick> = Vec::new();
        let mut ti: usize = 0;
        while ti < self.bricks.len()
            invariant
                ti <= self.bricks@.len(),
                self.bricks@ == bricksd,
                forall|j: int| 0 <= j < bricksd.len() ==> brick_wf(#[trigger] bricksd[j]),
                timed_bricks@.len() == ti,
                forall|j: int|
                    0 <= j < ti ==> #[trigger] timed_bricks@[j] == spec_tick_brick(
                        bricksd[j],
                        dt as int,
                    ) && brick_wf(timed_bricks@[j]),
            decreases self.bricks@.len() - ti,
        {
            let mut br: Brick = self.bricks[ti];
            if br.hit_timer > dt {
                br.hit_timer = br.hit_timer - dt;
            } else {
                br.hit_timer = 0;
            }
            timed_bricks.push(br);
            ti = ti + 1;
        }
        self.bricks = timed_bricks;
        proof {
            lemma_counts_pointwise_health(self.bricks@, bricksd);
        }
        // Advance and prune the particles: positions move by velocity
        // times the frame, lifetimes fall by the frame, and particles
        // whose lifetime ran out disappear.
        let ghost parte = self.particles@;
        let mut kept_particles: Vec<Particle> = Vec::new();
        let mut pi: usize = 0;
        proof {
            assert(parte.take(0) =~= Seq::<Particle>::empty());
        }
        while pi < self.particles.len()
            invariant
                pi <= self.particles@.len(),
                self.particles@ == parte,
                forall|j: int| 0 <= j < parte.len() ==> particle_wf(#[trigger] parte[j]),
                kept_particles@.len() == count_outliving(parte.take(pi as int), dt as int),
                kept_particles@ == spec_age_particles(parte.take(pi as int), dt as int),
                forall|j: int|
                    0 <= j < kept_particles@.len() ==> particle_wf(#[trigger] kept_particles@[j])
                        && kept_particles@[j].lifetime > 0,
            decreases self.particles@.len() - pi,
        {
            let p: Particle = self.particles[pi];
            proof {
                assert(parte.take(pi + 1) =~= parte.take(pi as int).push(parte[pi as int]));
                assert(parte.take(pi + 1).drop_last() =~= parte.take(pi as int));
            }
            if p.lifetime > dt {
                let mx: i64 = mul_unit(p.dx, dt as i64);
                let my: i64 = mul_unit(p.dy, dt as i64);
                proof {
                    assert(spec_abs(p.dx as int) * (dt as int) <= 200 * (dt as int) && spec_abs(
                        p.dy as int,
                    ) * (dt as int) <= 200 * (dt as int)) by (nonlinear_arith)
                        requires
                            spec_abs(p.dx as int) <= 200,
                            spec_abs(p.dy as int) <= 200,
                            dt as int >= 0,
                    {
                    }
                }
                let np: Particle = Particle {
                    x: p.x + mx,
                    y: p.y + my,
                    dx: p.dx,
                    dy: p.dy,
                    lifetime: p.lifetime - dt,
                    color: p.color,
                };
                proof {
                    assert(np == spec_aged_particle(p, dt as int));
                }
                kept_particles.push(np);
            }
            pi = pi + 1;
        }
        proof {
            assert(parte.take(parte.len() as int) =~= parte);
        }
        self.particles = kept_particles;
        // The frame is over; reassemble the standing invariant and the
        // frame accounting from the phase bookkeeping.
        proof {
            let oldlen = old(self).particles@.len() as int;
            let front = parte.subrange(0, oldlen);
            let back = parte.subrange(oldlen, parte.len() as int);
            assert(front =~= old(self).particles@);
            assert(parte =~= front + back);
            lemma_count_outliving_concat(front, back, dt as int);
            lemma_count_outliving_fresh(back, dt as int);
            assert(back.len() == (if fired {
                5int
            } else {
                0int
            }) + burst_total(bursts_all));
            assert forall|ix: int, iy: int, j: int|
                0 <= j < self.hash_grid.spec_cell(ix, iy).len() implies (
            #[trigger] self.hash_grid.spec_cell(ix, iy)[j]) < self.bricks@.len() by {
                assert(old(self).grid_ids_valid());
                assert(self.hash_grid.spec_cell(ix, iy) == old(self).hash_grid.spec_cell(ix, iy));
            }
            assert forall|i: int, ix: int, iy: int|
                0 <= i < self.bricks@.len() && #[trigger] self.hash_grid.covers(
                    self.bricks@[i].left as int,
                    self.bricks@[i].bottom as int,
                    self.bricks@[i].right as int,
                    self.bricks@[i].top as int,
                    ix,
                    iy,
                ) implies self.hash_grid.spec_cell(ix, iy).contains(i as usize) by {
                assert(old(self).grid_covers_bricks());
                assert(self.bricks@[i].left == old(self).bricks@[i].left);
                assert(old(self).hash_grid.covers(
                    old(self).bricks@[i].left as int,
                    old(self).bricks@[i].bottom as int,
                    old(self).bricks@[i].right as int,
                    old(self).bricks@[i].top as int,
                    ix,
                    iy,
                ));
                assert(self.hash_grid.spec_cell(ix, iy) == old(self).hash_grid.spec_cell(ix, iy));
            }
        }
    }
}

} // verus!
