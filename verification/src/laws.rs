//! Cross-frame laws of the simulation.
//!
//! The contract of `GameState::update` speaks about one frame.  The laws
//! here compose it over whole runs: brick health can only fall and the
//! score moves in lockstep with brick destruction over any sequence of
//! frames, the score never falls, and the spatial index answers a query
//! the same way as long as nothing is inserted.

use vstd::prelude::*;

verus! {

use crate::entities::{bullet_wf, count_alive, Bullet};
use crate::game::{bullet_hits_brick, GameState};
use crate::grid::HashGrid;
use crate::rng::spec_next;
use crate::weapon::{SimpleCannon, Weapon};
use vstd::arithmetic::div_mod::{lemma_div_is_ordered, lemma_div_pos_is_pos, lemma_mod_bound};

/// The part of the frame contract of `GameState::update` that the laws
/// below compose: the brick field keeps its size, each brick's health is
/// non-increasing (and, being a natural count, never below 0), and the
/// score advances by exactly the number of bricks whose health reached 0.
pub open spec fn frame_rel(pre: GameState, post: GameState) -> bool {
    &&& post.bricks@.len() == pre.bricks@.len()
    &&& forall|i: int|
        0 <= i < pre.bricks@.len() ==> (#[trigger] post.bricks@[i]).health
            <= pre.bricks@[i].health
    &&& post.score == pre.score + count_alive(pre.bricks@) - count_alive(post.bricks@)
    &&& count_alive(post.bricks@) <= count_alive(pre.bricks@)
}

/// Over any sequence of `update` calls, brick health is non-increasing
/// and the score still counts exactly the bricks destroyed since the
/// start: the frame relation established by each single call composes
/// across frames.
pub proof fn lemma_frame_rel_composes(a: GameState, b: GameState, c: GameState)
    requires
        frame_rel(a, b),
        frame_rel(b, c),
    ensures
        frame_rel(a, c),
{
}

/// The score never decreases across a frame: it moves up by the number of
/// bricks destroyed, which is never negative.
pub proof fn lemma_score_monotone(a: GameState, b: GameState)
    requires
        frame_rel(a, b),
    ensures
        b.score >= a.score,
{
}

/// A brick that has been destroyed stays destroyed: health 0 is
/// absorbing under the frame relation.
pub proof fn lemma_destroyed_stays_destroyed(a: GameState, b: GameState, i: int)
    requires
        frame_rel(a, b),
        0 <= i < a.bricks@.len(),
        a.bricks@[i].health == 0,
    ensures
        b.bricks@[i].health == 0,
{
}

/// Two `try_fire` calls within the same cooldown window yield exactly
/// one bullet: a successful shot rearms the cooldown to at least the
/// configured minimum, which a well-formed cannon keeps positive, so by
/// the firing contract the next call, with no `update` in between,
/// returns nothing.
pub proof fn lemma_rearmed_cooldown_positive(c: SimpleCannon, rng_state: u64, cooldown: u32)
    requires
        c.wf(),
        c.reset_ok(rng_state, cooldown),
    ensures
        cooldown > 0,
{
    lemma_mod_bound(
        spec_next(spec_next(rng_state)) as int,
        c.cooldown_max - c.cooldown_min + 1,
    );
}

/// Broad-phase completeness: the grid never loses a collision.  If a
/// well-formed bullet overlaps an alive brick that sits inside the field
/// of a standard 20 by 20 grid of 100-tick cells, then some cell in the
/// range covered by the bullet's bounding box holds that brick, so the
/// narrow phase will see it among its candidates.
pub proof fn lemma_broad_phase_complete(s: GameState, b: Bullet, i: int)
    requires
        s.wf(),
        s.hash_grid.cell_width == 100,
        s.hash_grid.cell_height == 100,
        s.hash_grid.grid_width == 20,
        s.hash_grid.grid_height == 20,
        0 <= i < s.bricks@.len(),
        -1000 <= s.bricks@[i].left,
        s.bricks@[i].right <= 1000,
        -1000 <= s.bricks@[i].bottom,
        s.bricks@[i].top <= 1000,
        bullet_wf(b),
        bullet_hits_brick(b, s.bricks@[i]),
    ensures
        exists|ix: int, iy: int|
            s.hash_grid.spec_cell_x(b.x - b.radius) <= ix <= s.hash_grid.spec_cell_x(
                b.x + b.radius,
            ) && s.hash_grid.spec_cell_y(b.y - b.radius) <= iy <= s.hash_grid.spec_cell_y(
                b.y + b.radius,
            ) && (#[trigger] s.hash_grid.spec_cell(ix, iy)).contains(i as usize),
{
    let br = s.bricks@[i];
    let px = if b.x - b.radius >= br.left {
        b.x - b.radius as int
    } else {
        br.left as int
    };
    let py = if b.y - b.radius >= br.bottom {
        b.y - b.radius as int
    } else {
        br.bottom as int
    };
    let ix = s.hash_grid.spec_cell_x(px);
    let iy = s.hash_grid.spec_cell_y(py);
    // The witness point lies in both boxes, so its cell lies in both cell
    // ranges, by monotonicity of the flooring division.
    lemma_div_is_ordered(b.x - b.radius + 1000, px + 1000, 100);
    lemma_div_is_ordered(px + 1000, b.x + b.radius + 1000, 100);
    lemma_div_is_ordered(br.left + 1000, px + 1000, 100);
    lemma_div_is_ordered(px + 1000, br.right + 1000, 100);
    lemma_div_is_ordered(b.y - b.radius + 1000, py + 1000, 100);
    lemma_div_is_ordered(py + 1000, b.y + b.radius + 1000, 100);
    lemma_div_is_ordered(br.bottom + 1000, py + 1000, 100);
    lemma_div_is_ordered(py + 1000, br.top + 1000, 100);
    // The witness point lies inside the field, so its cell is in-grid.
    lemma_div_pos_is_pos(px + 1000, 100);
    lemma_div_pos_is_pos(py + 1000, 100);
    lemma_div_is_ordered(px + 1000, 1999, 100);
    lemma_div_is_ordered(py + 1000, 1999, 100);
    assert(s.hash_grid.covers(
        br.left as int,
        br.bottom as int,
        br.right as int,
        br.top as int,
        ix,
        iy,
    ));
    assert(s.hash_grid.spec_cell(ix, iy).contains(i as usize));
}

/// The spatial index is idempotent for its static geometry: querying the
/// same cell twice without an intervening insertion returns identical
/// results.  `HashGrid::get_bricks_in_cell` takes the grid immutably and
/// returns exactly `spec_cell` of it, so any two results agree.
pub proof fn lemma_query_idempotent(g: HashGrid, ix: int, iy: int, r1: Seq<usize>, r2: Seq<usize>)
    requires
        r1 == g.spec_cell(ix, iy),
        r2 == g.spec_cell(ix, iy),
    ensures
        r1 == r2,
{
}

} // verus!
