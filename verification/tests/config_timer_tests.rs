//! Configuration validation and timer behavior.

use blockfall::config::{Config, ConfigError};
use blockfall::timer::Timer;

#[test]
fn config_accepts_reference_constants() {
    let c = Config::new(-250, 250, -300, 300, 25, 50, 3, 5000, 10, 100).unwrap();
    assert_eq!(c.left_bound, -250);
    assert_eq!(c.right_bound, 250);
    assert_eq!(c.floor_y, -300);
    assert_eq!(c.spawn_y, 300);
    assert_eq!(c.half_extent, 25);
    assert_eq!(c.grid_step, 50);
    assert_eq!(c.fall_step, 3);
    assert_eq!(c.spawn_interval, 5000);
    assert_eq!(c.gravity_interval, 10);
    assert_eq!(c.color_interval, 100);
}

#[test]
fn config_rejects_zero_interval() {
    let r = Config::new(-250, 250, -300, 300, 25, 50, 3, 0, 10, 100);
    assert_eq!(r, Err(ConfigError::IntervalOutOfRange));
}

#[test]
fn config_rejects_nonpositive_step() {
    let r = Config::new(-250, 250, -300, 300, 25, 0, 3, 5000, 10, 100);
    assert_eq!(r, Err(ConfigError::StepOutOfRange));
    let r = Config::new(-250, 250, -300, 300, -25, 50, 3, 5000, 10, 100);
    assert_eq!(r, Err(ConfigError::StepOutOfRange));
}

#[test]
fn config_rejects_bad_bounds() {
    // Inverted bounds.
    let r = Config::new(250, -250, -300, 300, 25, 50, 3, 5000, 10, 100);
    assert_eq!(r, Err(ConfigError::BoundsInvalid));
    // Bounds not aligned to the grid step.
    let r = Config::new(-240, 250, -300, 300, 25, 50, 3, 5000, 10, 100);
    assert_eq!(r, Err(ConfigError::BoundsInvalid));
    // Narrower than two grid steps.
    let r = Config::new(-50, 0, -300, 300, 25, 50, 3, 5000, 10, 100);
    assert_eq!(r, Err(ConfigError::BoundsInvalid));
}

#[test]
fn config_rejects_bad_heights() {
    let r = Config::new(-250, 250, 300, -300, 25, 50, 3, 5000, 10, 100);
    assert_eq!(r, Err(ConfigError::HeightsInvalid));
}

#[test]
fn timer_fires_at_interval() {
    let mut t = Timer::new(10);
    assert!(!t.advance(4));
    assert!(!t.advance(5));
    assert!(t.advance(1));
    assert_eq!(t.accumulated, 0);
}

#[test]
fn timer_carries_surplus() {
    let mut t = Timer::new(10);
    assert!(t.advance(25));
    assert_eq!(t.accumulated, 5);
    assert!(t.advance(5));
    assert_eq!(t.accumulated, 0);
}

#[test]
fn timer_fires_once_per_check() {
    let mut t = Timer::new(10);
    // Even after a long pause a single check reports one firing and keeps
    // the surplus modulo the interval.
    assert!(t.advance(95));
    assert_eq!(t.accumulated, 5);
    assert!(!t.advance(4));
    assert_eq!(t.accumulated, 9);
}
