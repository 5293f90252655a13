//! Tank tests: loading, chunked unloading, target selection, fairness
//! decay and the protocol errors.

use power_station::errors::SimError;
use power_station::msg::Msg;
use power_station::tank::{Dest, Tank, TankState};

/// Drive a fresh tank to a full load: request fuel, receive it all.
fn full_tank() -> Tank {
    let mut tank = Tank::new();
    tank.load().unwrap();
    let out = tank.step().unwrap();
    assert_eq!(out, vec![(Dest::Mine, Msg::Fuel(20))]);
    tank.q.send(Msg::Fuel(20)).unwrap();
    let out = tank.step().unwrap();
    assert!(out.is_empty());
    assert_eq!(tank.reservoir.level, 20);
    tank
}

#[test]
fn loads_in_two_deliveries() {
    // Capacity 20, in Load, receives Fuel(5) twice: the reservoir holds 10,
    // i.e. 50% of capacity.
    let mut tank = Tank::new();
    tank.load().unwrap();
    let out = tank.step().unwrap();
    assert_eq!(out, vec![(Dest::Mine, Msg::Fuel(20))]);
    for _ in 0..2 {
        tank.q.send(Msg::Fuel(5)).unwrap();
        let out = tank.step().unwrap();
        assert!(out.is_empty());
    }
    assert_eq!(tank.reservoir.level, 10);
    assert_eq!(tank.get_state(), TankState::Load(50));
}

#[test]
fn unloads_a_quarter_chunk() {
    // Reservoir 20, capacity 20: the chunk is min(20, 20/4) = 5 and 15
    // stays on board.
    let mut tank = full_tank();
    tank.q.send(Msg::IdleStation(3)).unwrap();
    let out = tank.step().unwrap();
    // No target was set, so the announcement takes the target and kicks
    // the mine with a zero-valued request.
    assert_eq!(out, vec![(Dest::Mine, Msg::Fuel(0))]);
    assert_eq!(tank.get_target(), Some(3));
    tank.unload().unwrap();
    let out = tank.step().unwrap();
    assert_eq!(out, vec![(Dest::Station(3), Msg::Fuel(5))]);
    assert_eq!(tank.reservoir.level, 15);
    assert_eq!(tank.get_state(), TankState::Unload(75));
    // Fairness decay: one chunk supplied, one point of priority lost.
    assert_eq!(tank.idle.score(3), Some(99));
}

#[test]
fn remainder_completes_the_unload() {
    let mut tank = full_tank();
    tank.q.send(Msg::IdleStation(3)).unwrap();
    tank.step().unwrap();
    tank.unload().unwrap();
    tank.step().unwrap();
    assert_eq!(tank.idle.score(3), Some(99));
    // The station returns 2 fuel: the entry leaves the registry and the
    // tank pings the station to complete the pickup.
    tank.q.send(Msg::Fuel(2)).unwrap();
    let out = tank.step().unwrap();
    assert_eq!(out, vec![(Dest::Station(3), Msg::Fuel(0))]);
    assert_eq!(tank.idle.score(3), None);
    assert_eq!(tank.reservoir.level, 17);
}

#[test]
fn move_below_threshold_requests_more() {
    // In Load with less than a quarter of capacity on board, a TankMove
    // asks the mine for the difference and stays in Load.
    let mut tank = Tank::new();
    tank.load().unwrap();
    tank.step().unwrap();
    tank.q.send(Msg::Fuel(4)).unwrap();
    tank.step().unwrap();
    tank.q.send(Msg::TankMove).unwrap();
    let out = tank.step().unwrap();
    assert_eq!(out, vec![(Dest::Mine, Msg::Fuel(16))]);
    assert_eq!(tank.get_state(), TankState::Load(20));
}

#[test]
fn move_with_enough_fuel_selects_target() {
    let mut tank = Tank::new();
    tank.q.send(Msg::IdleStation(1)).unwrap();
    tank.step().unwrap();
    tank.q.send(Msg::IdleStation(2)).unwrap();
    tank.step().unwrap();
    assert_eq!(tank.get_target(), Some(1));
    tank.load().unwrap();
    tank.step().unwrap();
    tank.q.send(Msg::Fuel(5)).unwrap();
    tank.step().unwrap();
    tank.q.send(Msg::TankMove).unwrap();
    let out = tank.step().unwrap();
    assert!(out.is_empty());
    // The target survives and the tank moves out to supply.
    assert_eq!(tank.get_target(), Some(1));
    assert_eq!(tank.get_state(), TankState::Supply(25));
}

#[test]
fn move_with_empty_registry_goes_refilling() {
    let mut tank = Tank::new();
    tank.q.send(Msg::TankMove).unwrap();
    let out = tank.step().unwrap();
    assert!(out.is_empty());
    assert_eq!(tank.get_target(), None);
    assert_eq!(tank.get_state(), TankState::Refill(0));
}

#[test]
fn move_selects_best_idle_station() {
    let mut tank = Tank::new();
    tank.q.send(Msg::IdleStation(2)).unwrap();
    tank.step().unwrap();
    tank.q.send(Msg::IdleStation(1)).unwrap();
    tank.step().unwrap();
    // Both announced at the default score: from a non-Load state the move
    // re-selects, and the tie breaks to the lowest id. With nothing on
    // board the tank heads back to refill.
    tank.q.send(Msg::TankMove).unwrap();
    tank.step().unwrap();
    assert_eq!(tank.get_target(), Some(1));
    assert_eq!(tank.get_state(), TankState::Refill(0));
}

#[test]
fn unload_without_target_is_fatal() {
    let mut tank = Tank::new();
    tank.unload().unwrap();
    assert_eq!(tank.step(), Err(SimError::NoTarget));
}

#[test]
fn remainder_without_target_is_fatal() {
    // An unload state with no target set is a broken programming
    // invariant; a returned remainder then reports it as fatal.
    let mut tank = Tank::new();
    tank.state = TankState::Unload(0);
    tank.q.send(Msg::Fuel(1)).unwrap();
    assert_eq!(tank.step(), Err(SimError::NoTarget));
}

#[test]
fn fuel_outside_load_or_unload_is_protocol_violation() {
    let mut tank = Tank::new();
    assert_eq!(tank.get_state(), TankState::Refill(0));
    tank.q.send(Msg::Fuel(3)).unwrap();
    assert_eq!(tank.step(), Err(SimError::UnexpectedMessage));
    assert_eq!(tank.reservoir.level, 0);
}

#[test]
fn closed_inbox_is_fatal() {
    let mut tank = Tank::new();
    tank.q.close();
    assert_eq!(tank.load(), Err(SimError::InboxClosed));
    assert_eq!(tank.step(), Err(SimError::InboxClosed));
}

#[test]
fn empty_inbox_suspends() {
    let mut tank = Tank::new();
    let out = tank.step().unwrap();
    assert!(out.is_empty());
    assert_eq!(tank.get_state(), TankState::Refill(0));
}

#[test]
fn custom_capacity_quarters_and_percent() {
    let mut tank = Tank::with_capacity(8);
    tank.q.send(Msg::IdleStation(0)).unwrap();
    tank.step().unwrap();
    tank.load().unwrap();
    let out = tank.step().unwrap();
    assert_eq!(out, vec![(Dest::Mine, Msg::Fuel(8))]);
    tank.q.send(Msg::Fuel(6)).unwrap();
    tank.step().unwrap();
    // 6 of 8 on board: 75%.
    assert_eq!(tank.get_state(), TankState::Load(75));
    tank.unload().unwrap();
    let out = tank.step().unwrap();
    // A quarter of 8 is 2.
    assert_eq!(out, vec![(Dest::Station(0), Msg::Fuel(2))]);
    assert_eq!(tank.reservoir.level, 4);
    assert_eq!(tank.get_state(), TankState::Unload(50));
}
