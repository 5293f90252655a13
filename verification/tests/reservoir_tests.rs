//! Clamped fuel arithmetic: fills return their overflow, drains floor at
//! zero, and a quarter is never zero for a positive amount.

use power_station::reservoir::{quarter_of, FuelReservoir};

#[test]
fn fill_within_capacity() {
    let mut r = FuelReservoir::new(100);
    let overflow = r.fill(60);
    assert_eq!(overflow, 0);
    assert_eq!(r.level, 60);
    assert_eq!(r.capacity, 100);
}

#[test]
fn fill_to_exactly_full() {
    let mut r = FuelReservoir::with_level(100, 40);
    let overflow = r.fill(60);
    assert_eq!(overflow, 0);
    assert_eq!(r.level, 100);
}

#[test]
fn fill_overflow_is_returned() {
    let mut r = FuelReservoir::with_level(100, 90);
    let overflow = r.fill(15);
    assert_eq!(overflow, 5);
    assert_eq!(r.level, 100);
}

#[test]
fn drain_floors_at_zero() {
    let mut r = FuelReservoir::with_level(100, 3);
    r.drain(10);
    assert_eq!(r.level, 0);
    r.drain(10);
    assert_eq!(r.level, 0);
}

#[test]
fn drain_partial() {
    let mut r = FuelReservoir::with_level(100, 10);
    r.drain(1);
    assert_eq!(r.level, 9);
}

#[test]
fn take_gives_what_is_there() {
    let mut r = FuelReservoir::with_level(20, 7);
    assert_eq!(r.take(5), 5);
    assert_eq!(r.level, 2);
    assert_eq!(r.take(5), 2);
    assert_eq!(r.level, 0);
}

#[test]
fn quarter_values() {
    assert_eq!(quarter_of(20), 5);
    assert_eq!(quarter_of(100), 25);
    assert_eq!(quarter_of(4), 1);
    assert_eq!(quarter_of(3), 1);
    assert_eq!(quarter_of(1), 1);
    assert_eq!(quarter_of(0), 0);
}
