//! Whole-world tests: the closed loop delivers fuel from the mine through
//! the tank into a dry station, the reservoir bounds hold at every observed
//! instant, and inbox cleanup drops pending messages and nothing else.

use power_station::errors::SimError;
use power_station::msg::Msg;
use power_station::tank::TankState;
use power_station::world::{cleanup_posix_queues, Turn, World};

/// The bounded-reservoir invariants, checked from outside.
fn check_bounds(w: &World) {
    assert!(w.mine.reservoir.level <= w.mine.reservoir.capacity);
    assert!(w.tank.reservoir.level <= w.tank.reservoir.capacity);
    for st in &w.stations {
        assert!(st.reservoir.level <= st.reservoir.capacity);
    }
}

#[test]
fn closed_loop_resupplies_a_dry_station() {
    let mut w = World::new(2, 1);
    w.tank.load().unwrap();
    let mut station0_went_dry = false;
    let mut station0_resupplied = false;
    // A fixed round-robin schedule with steady production; the invariants
    // must hold after every single step, whatever the interleaving.
    for _round in 0..200 {
        w.step(Turn::MineTurn, 5).unwrap();
        check_bounds(&w);
        w.step(Turn::TankTurn, 0).unwrap();
        check_bounds(&w);
        w.step(Turn::StationTurn(0), 0).unwrap();
        check_bounds(&w);
        w.step(Turn::StationTurn(1), 0).unwrap();
        check_bounds(&w);
        // Play the vehicle: once the tank has nothing left to react to,
        // arriving at the station starts the unload and arriving at the
        // mine starts the next load.
        if w.tank.q.queue.is_empty() {
            match w.tank.get_state() {
                TankState::Supply(_) => w.tank.unload().unwrap(),
                TankState::Refill(_) => w.tank.load().unwrap(),
                _ => {}
            }
        }
        if w.stations[0].reservoir.level == 0 {
            station0_went_dry = true;
        }
        if station0_went_dry && w.stations[0].reservoir.level > 0 {
            station0_resupplied = true;
        }
    }
    // Stations start with 10 fuel and burn 1 per tick, so both ran dry;
    // the loop must have brought fuel back to the first one.
    assert!(station0_went_dry);
    assert!(station0_resupplied);
}

#[test]
fn unknown_station_in_routing_is_reported() {
    let mut w = World::new(1, 1);
    // An announcement from a station index that does not exist makes the
    // tank target it; the next unload cannot be routed.
    w.tank.q.send(Msg::IdleStation(7)).unwrap();
    w.step(Turn::TankTurn, 0).unwrap();
    assert_eq!(w.tank.get_target(), Some(7));
    w.tank.unload().unwrap();
    assert_eq!(w.step(Turn::TankTurn, 0), Err(SimError::UnknownStation));
}

#[test]
fn closed_tank_inbox_stops_the_mine_delivery() {
    let mut w = World::new(1, 1);
    w.mine.q.send(Msg::Fuel(0)).unwrap();
    w.tank.q.close();
    assert_eq!(w.step(Turn::MineTurn, 5), Err(SimError::InboxClosed));
}

#[test]
fn cleanup_empties_every_inbox_and_keeps_the_rest() {
    let mut w = World::new(2, 1);
    w.mine.q.send(Msg::Fuel(3)).unwrap();
    w.tank.q.send(Msg::TankLoad).unwrap();
    w.stations[0].q.send(Msg::Fuel(1)).unwrap();
    w.step(Turn::MineTurn, 9).unwrap();
    let mine_level = w.mine.reservoir.level;
    let tank_state = w.tank.get_state();
    cleanup_posix_queues(&mut w);
    assert_eq!(w.mine.q.queue.len(), 0);
    assert_eq!(w.tank.q.queue.len(), 0);
    for st in &w.stations {
        assert_eq!(st.q.queue.len(), 0);
    }
    assert_eq!(w.mine.reservoir.level, mine_level);
    assert_eq!(w.tank.get_state(), tank_state);
    assert_eq!(w.stations[0].reservoir.level, 10);
}
