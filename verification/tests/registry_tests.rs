//! Idle-registry tests: selection picks the highest score with ties to the
//! lowest id, and supplying decays a station's priority.

use power_station::registry::{IdleRegistry, DEFAULT_SCORE};

#[test]
fn select_empty_is_none() {
    let reg = IdleRegistry::new();
    assert_eq!(reg.select(), None);
    assert_eq!(reg.len(), 0);
}

#[test]
fn selection_prefers_higher_score_then_decays() {
    // Two idle stations with scores 100 and 99: the one with 100 wins;
    // after one supplied chunk its score drops to 99.
    let mut reg = IdleRegistry::new();
    reg.insert(2, 100);
    reg.insert(1, 99);
    assert_eq!(reg.select(), Some(2));
    reg.decrement(2);
    assert_eq!(reg.score(2), Some(99));
    // Now the scores tie at 99: the lower id wins.
    assert_eq!(reg.select(), Some(1));
}

#[test]
fn tie_breaks_to_lowest_id() {
    let mut reg = IdleRegistry::new();
    reg.insert(7, DEFAULT_SCORE);
    reg.insert(3, DEFAULT_SCORE);
    reg.insert(5, DEFAULT_SCORE);
    assert_eq!(reg.select(), Some(3));
}

#[test]
fn insert_refreshes_score() {
    let mut reg = IdleRegistry::new();
    reg.insert(4, 10);
    reg.decrement(4);
    assert_eq!(reg.score(4), Some(9));
    reg.insert(4, DEFAULT_SCORE);
    assert_eq!(reg.score(4), Some(DEFAULT_SCORE));
    assert_eq!(reg.len(), 1);
}

#[test]
fn remove_strikes_only_its_entry() {
    let mut reg = IdleRegistry::new();
    reg.insert(0, 10);
    reg.insert(1, 20);
    reg.remove(0);
    assert_eq!(reg.score(0), None);
    assert_eq!(reg.score(1), Some(20));
    reg.remove(9);
    assert_eq!(reg.score(1), Some(20));
}

#[test]
fn decrement_floors_at_zero() {
    let mut reg = IdleRegistry::new();
    reg.insert(1, 1);
    reg.decrement(1);
    assert_eq!(reg.score(1), Some(0));
    reg.decrement(1);
    assert_eq!(reg.score(1), Some(0));
    // Decrementing an unregistered id does nothing.
    reg.decrement(2);
    assert_eq!(reg.score(2), None);
}
