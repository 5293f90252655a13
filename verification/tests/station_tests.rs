//! Station tests: burning to empty announces idleness exactly once, fuel is
//! absorbed up to capacity with the overflow returned, and the pickup ping
//! releases the station.

use power_station::msg::Msg;
use power_station::station::Station;

#[test]
fn burns_dry_and_announces_exactly_once() {
    // Capacity 100, burn rate 1 per tick, starting fuel 10, no resupply:
    // after exactly 10 ticks the fuel is 0 and exactly one IdleStation has
    // been emitted.
    let mut st = Station::new(0, 100, 10, 1);
    let mut announcements = 0;
    for tick in 1..=10u64 {
        let out = st.step().unwrap();
        assert_eq!(st.reservoir.level, 10 - tick);
        for m in &out {
            assert_eq!(*m, Msg::IdleStation(0));
            announcements += 1;
        }
    }
    assert_eq!(st.reservoir.level, 0);
    assert_eq!(announcements, 1);
    assert!(!st.q.nonblocking);
    // Further ticks happen against a blocking, empty inbox: the station is
    // suspended and announces nothing more.
    for _ in 0..5 {
        let out = st.step().unwrap();
        assert!(out.is_empty());
    }
    assert_eq!(announcements, 1);
}

#[test]
fn zero_burn_rate_keeps_fuel() {
    let mut st = Station::new(1, 100, 50, 0);
    for _ in 0..3 {
        let out = st.step().unwrap();
        assert!(out.is_empty());
    }
    assert_eq!(st.reservoir.level, 50);
    assert!(st.q.nonblocking);
}

#[test]
fn absorbs_fully_and_acknowledges() {
    let mut st = Station::new(0, 100, 90, 1);
    st.q.send(Msg::Fuel(5)).unwrap();
    let out = st.step().unwrap();
    assert_eq!(out, vec![Msg::TankUnload]);
    assert_eq!(st.reservoir.level, 95);
    assert!(!st.q.nonblocking);
}

#[test]
fn returns_overflow_as_remainder() {
    let mut st = Station::new(0, 100, 90, 1);
    st.q.send(Msg::Fuel(15)).unwrap();
    let out = st.step().unwrap();
    assert_eq!(out, vec![Msg::Fuel(5)]);
    assert_eq!(st.reservoir.level, 100);
}

#[test]
fn exact_fill_counts_as_absorbed() {
    let mut st = Station::new(0, 100, 90, 1);
    st.q.send(Msg::Fuel(10)).unwrap();
    let out = st.step().unwrap();
    assert_eq!(out, vec![Msg::TankUnload]);
    assert_eq!(st.reservoir.level, 100);
}

#[test]
fn pickup_ping_releases_station() {
    let mut st = Station::new(2, 100, 0, 1);
    // Burn to the announcement: the inbox turns blocking.
    let out = st.step().unwrap();
    assert_eq!(out, vec![Msg::IdleStation(2)]);
    assert!(!st.q.nonblocking);
    st.q.send(Msg::Fuel(0)).unwrap();
    let out = st.step().unwrap();
    assert_eq!(out, vec![Msg::TankMove]);
    assert!(st.q.nonblocking);
}

#[test]
fn wrong_message_kind_for_station_is_protocol_violation() {
    let mut st = Station::new(0, 100, 10, 1);
    st.q.send(Msg::TankLoad).unwrap();
    let r = st.step();
    assert_eq!(r, Err(power_station::errors::SimError::UnexpectedMessage));
    assert_eq!(st.reservoir.level, 10);
}
