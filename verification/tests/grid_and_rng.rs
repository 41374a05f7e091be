//! Tests of the spatial index and the random generator.

use brick_breaker::grid::HashGrid;
use brick_breaker::rng::Rng;

#[test]
fn empty_grid_has_empty_cells() {
    let g = HashGrid::new(100, 100, 20, 20);
    for ix in 0..20i64 {
        for iy in 0..20i64 {
            assert!(g.get_bricks_in_cell(ix, iy).is_empty());
        }
    }
}

#[test]
fn out_of_range_queries_are_empty_not_errors() {
    let mut g = HashGrid::new(100, 100, 20, 20);
    g.add_brick(3, -50, -50, 50, 50);
    assert!(g.get_bricks_in_cell(-1, 5).is_empty());
    assert!(g.get_bricks_in_cell(20, 5).is_empty());
    assert!(g.get_bricks_in_cell(5, -1).is_empty());
    assert!(g.get_bricks_in_cell(5, 20).is_empty());
}

#[test]
fn brick_is_registered_in_every_covered_cell() {
    let mut g = HashGrid::new(100, 100, 20, 20);
    // The rectangle spans world x in [-545, -445] and y in [-90, 10]:
    // cell columns 4..=5, cell rows 9..=10.
    g.add_brick(7, -545, -90, -445, 10);
    for ix in 4..=5i64 {
        for iy in 9..=10i64 {
            assert_eq!(g.get_bricks_in_cell(ix, iy), vec![7]);
        }
    }
    assert!(g.get_bricks_in_cell(3, 9).is_empty());
    assert!(g.get_bricks_in_cell(6, 9).is_empty());
    assert!(g.get_bricks_in_cell(4, 8).is_empty());
    assert!(g.get_bricks_in_cell(4, 11).is_empty());
}

#[test]
fn cells_that_fall_outside_are_silently_skipped() {
    let mut g = HashGrid::new(100, 100, 20, 20);
    // A rectangle hugging the left field edge: its cell range starts at
    // column 0, nothing breaks at the boundary.
    g.add_brick(1, -1000, -1000, -950, -950);
    assert_eq!(g.get_bricks_in_cell(0, 0), vec![1]);
}

#[test]
fn insertion_outside_the_field_is_silently_skipped() {
    let mut g = HashGrid::new(100, 100, 20, 20);
    // A rectangle wholly outside the field: every covered cell falls
    // outside the grid, so nothing is registered and nothing fails.
    g.add_brick(5, 2000, 2000, 2500, 2500);
    g.add_brick(6, -90000, -90000, -80000, -80000);
    for ix in 0..20i64 {
        for iy in 0..20i64 {
            assert!(g.get_bricks_in_cell(ix, iy).is_empty());
        }
    }
    // A rectangle straddling the right edge still registers its in-field
    // part.
    g.add_brick(7, 950, 0, 1050, 100);
    assert_eq!(g.get_bricks_in_cell(19, 10), vec![7]);
    assert_eq!(g.get_bricks_in_cell(19, 11), vec![7]);
}

#[test]
fn queries_without_insertion_are_idempotent() {
    let mut g = HashGrid::new(100, 100, 20, 20);
    g.add_brick(0, -50, -50, 50, 50);
    g.add_brick(1, -50, -50, 50, 50);
    let first = g.get_bricks_in_cell(9, 9);
    let second = g.get_bricks_in_cell(9, 9);
    assert_eq!(first, second);
    assert_eq!(first, vec![0, 1]);
}

#[test]
fn cell_index_floors_negative_coordinates() {
    let g = HashGrid::new(100, 100, 20, 20);
    assert_eq!(g.get_cell_index(-1000, -1000), (0, 0));
    assert_eq!(g.get_cell_index(-1001, 0), (-1, 10));
    assert_eq!(g.get_cell_index(999, 999), (19, 19));
    assert_eq!(g.get_cell_index(0, 0), (10, 10));
}

#[test]
fn rng_draws_stay_in_range() {
    let mut r = Rng::new(42);
    for _ in 0..1000 {
        let v = r.range_i64(-20, 20);
        assert!((-20..=20).contains(&v));
        let w = r.range_i64(5, 15);
        assert!((5..=15).contains(&w));
    }
}

#[test]
fn rng_is_deterministic_for_a_seed() {
    let mut a = Rng::new(7);
    let mut b = Rng::new(7);
    for _ in 0..100 {
        assert_eq!(a.next_u64(), b.next_u64());
    }
}

#[test]
fn rng_zero_seed_is_usable() {
    let mut r = Rng::new(0);
    let x = r.next_u64();
    let y = r.next_u64();
    assert!(x != 0);
    assert!(x != y);
}
