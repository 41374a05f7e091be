//! Tests of the cannon's cooldown state machine and firing behaviour.

use brick_breaker::rng::Rng;
use brick_breaker::weapon::{SimpleCannon, Weapon};

#[test]
fn fresh_cannon_fires_at_once() {
    let mut cannon = SimpleCannon::new();
    let mut rng = Rng::new(1);
    let shot = cannon.try_fire(0, -900, 0, &mut rng);
    let bullet = shot.expect("a fresh cannon has no cooldown");
    assert_eq!(bullet.health, 1);
    assert_eq!(bullet.radius, 10);
    // The muzzle tip is within barrel length of the pivot.
    assert!(bullet.x.abs() <= 100);
    assert!((-1000..=-800).contains(&bullet.y));
    // Aimed straight up with a spread of at most a tenth of a radian,
    // the bullet flies upward.
    assert!(bullet.dy > 0);
}

#[test]
fn second_shot_in_cooldown_window_yields_nothing() {
    let mut cannon = SimpleCannon::new();
    let mut rng = Rng::new(1);
    assert!(cannon.try_fire(0, -900, 0, &mut rng).is_some());
    // The cooldown was just rearmed to 5..=15 ms; an immediate retry
    // within the same window fires nothing.
    assert!(cannon.try_fire(0, -900, 0, &mut rng).is_none());
    assert!((5..=15).contains(&cannon.cooldown_timer));
}

#[test]
fn cooldown_decays_and_stops_at_zero() {
    let mut cannon = SimpleCannon::new();
    let mut rng = Rng::new(9);
    assert!(cannon.try_fire(0, -900, 0, &mut rng).is_some());
    let armed = cannon.cooldown_timer;
    cannon.update(2);
    assert_eq!(cannon.cooldown_timer, armed - 2);
    cannon.update(1000);
    assert_eq!(cannon.cooldown_timer, 0);
    assert!(cannon.try_fire(0, -900, 0, &mut rng).is_some());
}

#[test]
fn partial_decay_still_blocks_firing() {
    let mut cannon = SimpleCannon::new();
    let mut rng = Rng::new(5);
    assert!(cannon.try_fire(0, -900, 0, &mut rng).is_some());
    cannon.update(2);
    if cannon.cooldown_timer > 0 {
        assert!(cannon.try_fire(0, -900, 0, &mut rng).is_none());
    }
}

#[test]
fn muzzle_speed_stays_within_band() {
    let mut cannon = SimpleCannon::new();
    let mut rng = Rng::new(33);
    for _ in 0..50 {
        cannon.update(1000);
        let bullet = cannon.try_fire(0, -900, 0, &mut rng).expect("cooldown has run out");
        // Velocity components never exceed the fastest muzzle speed.
        assert!(bullet.dx.abs() <= 1200);
        assert!(bullet.dy.abs() <= 1200);
    }
}
