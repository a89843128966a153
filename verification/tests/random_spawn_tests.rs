//! Random spawning: grid alignment, bounds, reproducibility, and the
//! invariants of long randomized runs.

use blockfall::block::Status;
use blockfall::config::Config;
use blockfall::sim::Sim;

fn reference_config() -> Config {
    Config::new(-250, 250, -300, 300, 25, 50, 3, 5000, 10, 100).unwrap()
}

/// Every randomly spawned block lies within the bounds, on the grid, at the
/// spawn height, falling; each spawn event adds one or two blocks.
#[test]
fn random_spawns_are_aligned_and_in_bounds() {
    let mut sim = Sim::new(reference_config(), 42);
    let mut prev_count = 0;
    for _ in 0..20 {
        sim.spawn_random();
        let count = sim.block_count();
        assert!(count == prev_count + 1 || count == prev_count + 2);
        for i in prev_count..count {
            let b = sim.get_block(i);
            assert!(-250 <= b.x && b.x <= 250);
            assert_eq!(b.x % 50, 0);
            assert_eq!(b.y, 300);
            assert_eq!(b.status, Status::Falling);
        }
        prev_count = count;
    }
}

/// Two simulations built from the same seed spawn identical blocks.
#[test]
fn same_seed_reproduces_spawns() {
    let mut a = Sim::new(reference_config(), 1234);
    let mut b = Sim::new(reference_config(), 1234);
    for _ in 0..10 {
        a.spawn_random();
        b.spawn_random();
    }
    assert_eq!(a.block_count(), b.block_count());
    for i in 0..a.block_count() {
        assert_eq!(a.get_block(i), b.get_block(i));
    }
}

/// The drawn spawn positions actually vary: across seeds the first spawned
/// block does not always land at the same x.
#[test]
fn spawn_positions_vary_across_seeds() {
    let mut seen_different = false;
    let mut first_x = None;
    for seed in 0..20 {
        let mut sim = Sim::new(reference_config(), seed);
        sim.spawn_random();
        let x = sim.get_block(0).x;
        match first_x {
            None => first_x = Some(x),
            Some(x0) => {
                if x != x0 {
                    seen_different = true;
                }
            }
        }
    }
    assert!(seen_different);
}

/// A long randomized run keeps every block inside the playfield: x within
/// the bounds and on the grid, y at or above the floor, never above the
/// spawn height while falling.
#[test]
fn long_run_keeps_playfield_invariants() {
    let mut sim = Sim::new(reference_config(), 99);
    for _ in 0..1500 {
        sim.tick(10);
        for i in 0..sim.block_count() {
            let b = sim.get_block(i);
            assert!(-250 <= b.x && b.x <= 250);
            assert_eq!(b.x % 50, 0);
            assert!(b.y >= -300);
            if b.status == Status::Falling {
                assert!(b.y <= 300);
            }
        }
    }
    // Three spawn events fired during the run (at 5s, 10s and 15s).
    assert!(sim.block_count() >= 3);
}
