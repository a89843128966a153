//! End-to-end scenarios of the simulation: spawning, falling, settling,
//! stacking and horizontal movement.

use blockfall::block::Status;
use blockfall::config::Config;
use blockfall::sim::{Direction, Sim};

fn reference_config() -> Config {
    Config::new(-250, 250, -300, 300, 25, 50, 3, 5000, 10, 100).unwrap()
}

/// A single block spawned at x=0 reaches the floor after exactly 200 gravity
/// ticks (600 units of height at 3 per tick) and then never moves again.
#[test]
fn single_block_reaches_floor_in_200_ticks() {
    let mut sim = Sim::new(reference_config(), 1);
    sim.spawn_single_at(0);
    for k in 1..=199u32 {
        let ev = sim.tick(10);
        assert!(ev.gravity_fired);
        assert!(!ev.spawn_fired);
        let b = sim.get_block(0);
        assert_eq!(b.y, 300 - 3 * k as i64);
        assert_eq!(b.status, Status::Falling);
    }
    sim.tick(10);
    let b = sim.get_block(0);
    assert_eq!(b.y, -300);
    assert_eq!(b.status, Status::Settled);
    for _ in 0..10 {
        sim.tick(10);
        let b = sim.get_block(0);
        assert_eq!((b.x, b.y, b.status), (0, -300, Status::Settled));
    }
}

/// A block falling at the same x as a settled floor block comes within one
/// tick step of the exact resting height and settles exactly on top of it:
/// floor at -300, half-height 50, so rest is exactly -200.
#[test]
fn falling_block_stacks_exactly_on_settled_block() {
    let config = Config::new(-300, 300, -300, 300, 50, 100, 3, 5000, 10, 100).unwrap();
    let mut sim = Sim::new(config, 2);
    sim.spawn_single_at(0);
    for _ in 0..200 {
        sim.gravity_step();
    }
    assert_eq!(sim.get_block(0).y, -300);
    assert_eq!(sim.get_block(0).status, Status::Settled);

    sim.spawn_single_at(0);
    let mut last_falling_y = 300;
    let mut steps = 0;
    while sim.get_block(1).status == Status::Falling {
        last_falling_y = sim.get_block(1).y;
        sim.gravity_step();
        steps += 1;
        assert!(steps < 1000, "block never settled");
    }
    // Within one tick step of the theoretical resting height before landing.
    assert!(last_falling_y - 3 <= -200 + 3 && -200 - 3 <= last_falling_y - 3);
    // Settles exactly on top: -300 + 50 + 50.
    assert_eq!(sim.get_block(1).y, -200);
    // And the supporting block did not move.
    assert_eq!(sim.get_block(0).y, -300);
}

/// A falling block already at the left bound rejects a left key press.
#[test]
fn left_press_at_left_bound_is_rejected() {
    let mut sim = Sim::new(reference_config(), 3);
    sim.spawn_single_at(-250);
    assert_eq!(sim.get_block(0).x, -250);
    sim.on_key_press(Direction::Left);
    assert_eq!(sim.get_block(0).x, -250);
    assert_eq!(sim.get_block(0).status, Status::Falling);
}

/// A double spawn at snapped x=100 produces blocks at x=100 and x=150, both
/// falling at the spawn height.
#[test]
fn double_spawn_places_touching_pair() {
    let mut sim = Sim::new(reference_config(), 4);
    sim.spawn_double_at(100);
    assert_eq!(sim.block_count(), 2);
    let a = sim.get_block(0);
    let b = sim.get_block(1);
    assert_eq!((a.x, a.y, a.status), (100, 300, Status::Falling));
    assert_eq!((b.x, b.y, b.status), (150, 300, Status::Falling));
}

/// A block at x=200 moves to the right bound 250 on a right press and stays
/// there on a second press.
#[test]
fn right_press_clamps_at_right_bound() {
    let mut sim = Sim::new(reference_config(), 5);
    sim.spawn_single_at(200);
    sim.on_key_press(Direction::Right);
    assert_eq!(sim.get_block(0).x, 250);
    sim.on_key_press(Direction::Right);
    assert_eq!(sim.get_block(0).x, 250);
}

/// Up and down presses are acknowledged but change nothing.
#[test]
fn vertical_presses_are_noops() {
    let mut sim = Sim::new(reference_config(), 6);
    sim.spawn_single_at(50);
    sim.on_key_press(Direction::Up);
    sim.on_key_press(Direction::Down);
    let b = sim.get_block(0);
    assert_eq!((b.x, b.y, b.status), (50, 300, Status::Falling));
}

/// The two blocks of a double move independently: at the right edge the
/// partner is rejected while the left block may still move.
#[test]
fn double_blocks_clamp_independently() {
    let mut sim = Sim::new(reference_config(), 7);
    sim.spawn_double_at(150);
    assert_eq!(sim.get_block(0).x, 150);
    assert_eq!(sim.get_block(1).x, 200);
    sim.on_key_press(Direction::Right);
    assert_eq!(sim.get_block(0).x, 200);
    assert_eq!(sim.get_block(1).x, 250);
    sim.on_key_press(Direction::Right);
    // The partner is out of room; the left block still has room and moves,
    // bound checks being independent per block.
    assert_eq!(sim.get_block(0).x, 250);
    assert_eq!(sim.get_block(1).x, 250);
}

/// Settled blocks ignore key presses; falling blocks still move.
#[test]
fn settled_blocks_ignore_key_presses() {
    let mut sim = Sim::new(reference_config(), 8);
    sim.spawn_single_at(0);
    for _ in 0..200 {
        sim.gravity_step();
    }
    assert_eq!(sim.get_block(0).status, Status::Settled);
    sim.spawn_single_at(100);
    sim.on_key_press(Direction::Left);
    assert_eq!(sim.get_block(0).x, 0);
    assert_eq!(sim.get_block(1).x, 50);
}

/// `tick` reports exactly which timers fired.
#[test]
fn tick_reports_timer_events() {
    let mut sim = Sim::new(reference_config(), 10);
    let ev = sim.tick(5);
    assert!(!ev.spawn_fired && !ev.gravity_fired && !ev.color_fired);
    let ev = sim.tick(5);
    assert!(ev.gravity_fired && !ev.spawn_fired && !ev.color_fired);
    let ev = sim.tick(90);
    assert!(ev.gravity_fired && ev.color_fired && !ev.spawn_fired);
    let ev = sim.tick(4900);
    assert!(ev.spawn_fired && ev.gravity_fired && ev.color_fired);
}

/// While no landing happens, y decreases by exactly the fall step each tick.
#[test]
fn monotonic_fall_by_exact_step() {
    let mut sim = Sim::new(reference_config(), 9);
    sim.spawn_single_at(-100);
    let mut prev = sim.get_block(0).y;
    for _ in 0..50 {
        sim.gravity_step();
        let b = sim.get_block(0);
        assert_eq!(b.y, prev - 3);
        assert_eq!(b.status, Status::Falling);
        prev = b.y;
    }
}
