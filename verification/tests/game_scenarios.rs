//! Scenario tests of the per-frame simulation update: collisions, damage,
//! scoring, boundary reflection, particle lifecycle and aiming.

use brick_breaker::color::{hsv_to_rgb, Rgba};
use brick_breaker::entities::{Bullet, Particle};
use brick_breaker::game::GameState;

#[test]
fn new_game_is_a_full_grid_of_healthy_bricks() {
    let state = GameState::new(1);
    assert_eq!(state.bricks.len(), 100);
    assert_eq!(state.score, 0);
    assert!(state.bullets.is_empty());
    assert!(state.particles.is_empty());
    assert_eq!(state.theta, 0);
    assert_eq!((state.cannon_x, state.cannon_y), (0, -900));
    for b in &state.bricks {
        assert_eq!(b.health, 5);
        assert_eq!(b.hit_timer, 0);
        assert_eq!(b.right - b.left, 100);
        assert_eq!(b.top - b.bottom, 100);
        assert_eq!(b.base_color, hsv_to_rgb((b.left + 1000) * 180, 700, 1000));
    }
}

#[test]
fn jitter_is_deterministic_per_seed() {
    let a = GameState::new(123);
    let b = GameState::new(123);
    let c = GameState::new(124);
    for i in 0..100 {
        assert_eq!(a.bricks[i].left, b.bricks[i].left);
        assert_eq!(a.bricks[i].bottom, b.bricks[i].bottom);
    }
    assert!((0..100).any(|i| a.bricks[i].left != c.bricks[i].left));
}

#[test]
fn one_hit_damages_the_brick_reflects_the_bullet_and_spawns_three_particles() {
    let mut state = GameState::new(1);
    state.particles.clear();
    let target = 55;
    let cx = (state.bricks[target].left + state.bricks[target].right) / 2;
    let cy = (state.bricks[target].bottom + state.bricks[target].top) / 2;
    // A bullet of health 2 parked at the brick's centre, so it survives
    // the impact and the reflection is observable.
    state.bullets.push(Bullet { x: cx, y: cy, dx: 0, dy: -500, radius: 10, health: 2 });
    // The bullet's box overlaps exactly this one alive brick.
    let overlapping = (0..100)
        .filter(|&i| {
            let b = &state.bricks[i];
            b.health > 0 && cx + 10 > b.left && cx - 10 < b.right && cy + 10 > b.bottom
                && cy - 10 < b.top
        })
        .count();
    assert_eq!(overlapping, 1);
    state.update(10);
    assert_eq!(state.bricks[target].health, 4);
    assert_eq!(state.score, 0);
    assert_eq!(state.bullets.len(), 1);
    assert!(state.bullets[0].dy > 0);
    assert_eq!(state.bullets[0].health, 1);
    assert_eq!(state.particles.len(), 3);
    // The struck brick flashes: the timer was rearmed to 100 ms and has
    // already decayed by this frame's 10 ms.
    assert_eq!(state.bricks[target].hit_timer, 90);
}

#[test]
fn spent_bullet_is_removed_after_the_frame_it_died_in() {
    let mut state = GameState::new(1);
    state.particles.clear();
    let target = 55;
    let cx = (state.bricks[target].left + state.bricks[target].right) / 2;
    let cy = (state.bricks[target].bottom + state.bricks[target].top) / 2;
    state.bullets.push(Bullet { x: cx, y: cy, dx: 0, dy: -500, radius: 10, health: 1 });
    state.update(10);
    assert_eq!(state.bricks[target].health, 4);
    // Health fell to 0 on impact, so the live set no longer holds it.
    assert!(state.bullets.is_empty());
}

#[test]
fn destroying_a_brick_scores_and_bursts_thirteen_particles() {
    let mut state = GameState::new(2);
    state.particles.clear();
    let target = 55;
    state.bricks[target].health = 1;
    let cx = (state.bricks[target].left + state.bricks[target].right) / 2;
    let cy = (state.bricks[target].bottom + state.bricks[target].top) / 2;
    state.bullets.push(Bullet { x: cx, y: cy, dx: 0, dy: -500, radius: 10, health: 1 });
    assert_eq!(state.score, 0);
    state.update(10);
    assert_eq!(state.bricks[target].health, 0);
    assert_eq!(state.score, 1);
    // 3 impact particles at the bullet plus 10 destruction particles at
    // the brick's centre.
    assert_eq!(state.particles.len(), 13);
}

#[test]
fn destroyed_brick_is_inert() {
    let mut state = GameState::new(2);
    state.particles.clear();
    let target = 55;
    state.bricks[target].health = 0;
    let cx = (state.bricks[target].left + state.bricks[target].right) / 2;
    let cy = (state.bricks[target].bottom + state.bricks[target].top) / 2;
    state.bullets.push(Bullet { x: cx, y: cy, dx: 0, dy: -500, radius: 10, health: 1 });
    state.update(10);
    // A dead brick gives no collision response: no damage, no score, no
    // particles, and the bullet flies on.
    assert_eq!(state.bricks[target].health, 0);
    assert_eq!(state.score, 0);
    assert!(state.particles.is_empty());
    assert_eq!(state.bullets.len(), 1);
    assert_eq!(state.bullets[0].health, 1);
}

#[test]
fn bullet_is_clamped_and_reflected_at_the_left_wall() {
    let mut state = GameState::new(3);
    state.particles.clear();
    // Just inside the left edge, moving left, far below the bricks.
    state.bullets.push(Bullet { x: -989, y: -500, dx: -500, dy: 0, radius: 10, health: 1 });
    state.update(10);
    assert_eq!(state.bullets.len(), 1);
    assert_eq!(state.bullets[0].x, -1000 + 10);
    assert!(state.bullets[0].dx > 0);
}

#[test]
fn bullet_is_clamped_and_reflected_at_the_right_wall() {
    let mut state = GameState::new(3);
    state.particles.clear();
    state.bullets.push(Bullet { x: 989, y: -500, dx: 500, dy: 0, radius: 10, health: 1 });
    state.update(10);
    assert_eq!(state.bullets.len(), 1);
    assert_eq!(state.bullets[0].x, 1000 - 10);
    assert!(state.bullets[0].dx < 0);
}

#[test]
fn bullet_leaving_through_the_bottom_is_discarded() {
    let mut state = GameState::new(3);
    state.particles.clear();
    state.bullets.push(Bullet { x: 0, y: -995, dx: 0, dy: -900, radius: 10, health: 1 });
    state.update(100);
    assert!(state.bullets.is_empty());
}

#[test]
fn particle_outliving_its_lifetime_is_removed_in_one_frame() {
    let mut state = GameState::new(4);
    let color = hsv_to_rgb(0, 700, 1000);
    state.particles.push(Particle { x: 0, y: 0, dx: 0, dy: 0, lifetime: 500, color });
    state.update(600);
    assert!(state.particles.is_empty());
}

#[test]
fn particle_within_its_lifetime_survives_and_moves() {
    let mut state = GameState::new(4);
    let color = hsv_to_rgb(0, 700, 1000);
    state.particles.push(Particle { x: 0, y: 0, dx: 100, dy: -50, lifetime: 500, color });
    state.update(100);
    assert_eq!(state.particles.len(), 1);
    assert_eq!(state.particles[0].lifetime, 400);
    assert_eq!(state.particles[0].x, 10);
    assert_eq!(state.particles[0].y, -5);
}

#[test]
fn keyboard_rotation_turns_by_the_rotation_rate() {
    let mut state = GameState::new(5);
    state.set_input(true, false, false, None);
    state.update(100);
    // 2 pi radians per second for a tenth of a second.
    assert_eq!(state.theta, 628);
    state.set_input(false, true, false, None);
    state.update(100);
    assert_eq!(state.theta, 0);
}

#[test]
fn aim_is_clamped_to_a_half_turn() {
    let mut state = GameState::new(5);
    state.set_input(true, false, false, None);
    for _ in 0..10 {
        state.update(100);
    }
    assert_eq!(state.theta, 1571);
    state.set_input(false, true, false, None);
    for _ in 0..30 {
        state.update(100);
    }
    assert_eq!(state.theta, -1571);
}

#[test]
fn pointer_aim_overrides_keyboard() {
    let mut state = GameState::new(5);
    state.set_input(true, false, false, Some(500));
    state.update(16);
    assert_eq!(state.theta, 500);
    state.set_input(false, false, false, Some(99999));
    state.update(16);
    assert_eq!(state.theta, 1571);
    state.set_input(false, false, false, Some(-99999));
    state.update(16);
    assert_eq!(state.theta, -1571);
}

#[test]
fn firing_a_frame_adds_a_bullet_and_a_muzzle_flash() {
    let mut state = GameState::new(6);
    state.set_input(false, false, true, None);
    state.update(16);
    assert_eq!(state.bullets.len(), 1);
    assert_eq!(state.particles.len(), 5);
    assert_eq!(state.bullets[0].health, 1);
    assert!(state.bullets[0].dy > 0);
}

#[test]
fn health_never_rises_and_score_counts_destroyed_bricks_over_a_run() {
    let mut state = GameState::new(7);
    state.set_input(false, false, true, None);
    let mut prev: Vec<u32> = state.bricks.iter().map(|b| b.health).collect();
    let mut prev_score = state.score;
    for _ in 0..400 {
        state.update(16);
        let now: Vec<u32> = state.bricks.iter().map(|b| b.health).collect();
        for i in 0..100 {
            assert!(now[i] <= prev[i]);
        }
        // The score advances by exactly the number of bricks that died
        // this frame, and never falls.
        let died = (0..100).filter(|&i| prev[i] > 0 && now[i] == 0).count() as u32;
        assert_eq!(state.score, prev_score + died);
        prev = now;
        prev_score = state.score;
    }
    // Ten seconds of constant fire into a full grid scores something.
    assert!(state.score > 0);
}

#[test]
fn update_without_input_changes_nothing_visible() {
    let mut state = GameState::new(8);
    let healths: Vec<u32> = state.bricks.iter().map(|b| b.health).collect();
    state.update(16);
    assert_eq!(state.score, 0);
    assert!(state.bullets.is_empty());
    assert!(state.particles.is_empty());
    for i in 0..100 {
        assert_eq!(state.bricks[i].health, healths[i]);
    }
}

#[test]
fn render_color_darkens_with_health_and_flashes_white() {
    let mut state = GameState::new(9);
    let b = &state.bricks[0];
    // Full health renders the base colour.
    assert_eq!(b.render_color(), b.base_color);
    state.bricks[0].health = 2;
    let base = state.bricks[0].base_color;
    let dimmed = state.bricks[0].render_color();
    assert_eq!(dimmed.r, base.r * 2 / 5);
    assert_eq!(dimmed.g, base.g * 2 / 5);
    assert_eq!(dimmed.b, base.b * 2 / 5);
    assert_eq!(dimmed.a, 1000);
    state.bricks[0].hit_timer = 40;
    assert_eq!(
        state.bricks[0].render_color(),
        Rgba { r: 1000, g: 1000, b: 1000, a: 1000 },
    );
}

#[test]
fn render_alpha_fades_with_remaining_lifetime() {
    let color = hsv_to_rgb(0, 700, 1000);
    let p = Particle { x: 0, y: 0, dx: 0, dy: 0, lifetime: 500, color };
    assert_eq!(p.render_alpha(), 1000);
    let p = Particle { lifetime: 250, ..p };
    assert_eq!(p.render_alpha(), 500);
    let p = Particle { lifetime: 1, ..p };
    assert_eq!(p.render_alpha(), 2);
}

#[test]
fn brick_spanning_several_cells_is_hit_only_once_per_frame() {
    let mut state = GameState::new(11);
    state.particles.clear();
    // Find a brick with a vertical cell line strictly inside it, with
    // room for the bullet's box on both sides: the bullet's bounding box
    // then covers two cells that both list this brick, and the candidate
    // set must deduplicate it.
    let mut found = None;
    for i in 0..100 {
        let b = &state.bricks[i];
        let line = ((b.left + 1000) / 100 + 1) * 100 - 1000;
        if line > b.left + 11 && line < b.right - 11 {
            found = Some((i, line, (b.bottom + b.top) / 2));
            break;
        }
    }
    let (target, x, cy) = found.expect("some brick straddles a cell line");
    state.bullets.push(Bullet { x, y: cy, dx: 0, dy: -500, radius: 10, health: 5 });
    state.update(10);
    // One hit, not one per overlapping cell.
    assert_eq!(state.bricks[target].health, 4);
    assert_eq!(state.particles.len(), 3);
}

#[test]
fn zero_delta_time_frame_changes_nothing() {
    let mut state = GameState::new(12);
    let color = hsv_to_rgb(90000, 700, 1000);
    state.particles.push(Particle { x: 7, y: 8, dx: 100, dy: 100, lifetime: 500, color });
    state.bullets.push(Bullet { x: 0, y: -500, dx: 300, dy: 300, radius: 10, health: 1 });
    state.update(0);
    assert_eq!(state.particles.len(), 1);
    assert_eq!(state.particles[0].lifetime, 500);
    assert_eq!((state.particles[0].x, state.particles[0].y), (7, 8));
    assert_eq!(state.bullets.len(), 1);
    assert_eq!((state.bullets[0].x, state.bullets[0].y), (0, -500));
    assert_eq!(state.score, 0);
    assert_eq!(state.theta, 0);
}
