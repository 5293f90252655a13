//! Mine tests: production accrues up to capacity, requests are clamped to
//! the buffer and streamed in quarter-of-request chunks, and the stream
//! ends with a TankMove.

use power_station::errors::SimError;
use power_station::mine::Mine;
use power_station::msg::Msg;

#[test]
fn production_accrues_and_caps() {
    let mut mine = Mine::with_capacity(50);
    assert!(mine.step(30).unwrap().is_empty());
    assert_eq!(mine.reservoir.level, 30);
    assert!(mine.step(30).unwrap().is_empty());
    assert_eq!(mine.reservoir.level, 50);
    assert!(mine.step(5).unwrap().is_empty());
    assert_eq!(mine.reservoir.level, 50);
}

#[test]
fn streams_request_in_quarter_chunks() {
    let mut mine = Mine::with_capacity(200);
    mine.step(40).unwrap();
    mine.q.send(Msg::Fuel(16)).unwrap();
    let out = mine.step(0).unwrap();
    assert_eq!(
        out,
        vec![
            Msg::Fuel(4),
            Msg::Fuel(4),
            Msg::Fuel(4),
            Msg::Fuel(4),
            Msg::TankMove,
        ]
    );
    assert_eq!(mine.reservoir.level, 24);
}

#[test]
fn uneven_request_ends_with_short_chunk() {
    let mut mine = Mine::with_capacity(200);
    mine.step(100).unwrap();
    mine.q.send(Msg::Fuel(10)).unwrap();
    let out = mine.step(0).unwrap();
    // A quarter of 10 is 2 (floored): chunks of 2 until the 10 are out.
    assert_eq!(
        out,
        vec![
            Msg::Fuel(2),
            Msg::Fuel(2),
            Msg::Fuel(2),
            Msg::Fuel(2),
            Msg::Fuel(2),
            Msg::TankMove,
        ]
    );
    assert_eq!(mine.reservoir.level, 90);
}

#[test]
fn request_clamps_to_buffer() {
    let mut mine = Mine::with_capacity(200);
    mine.step(10).unwrap();
    mine.q.send(Msg::Fuel(100)).unwrap();
    let out = mine.step(0).unwrap();
    // Only 10 are there: the chunks are a quarter of that clamped amount,
    // not of the raw request.
    assert_eq!(
        out,
        vec![
            Msg::Fuel(2),
            Msg::Fuel(2),
            Msg::Fuel(2),
            Msg::Fuel(2),
            Msg::Fuel(2),
            Msg::TankMove,
        ]
    );
    assert_eq!(mine.reservoir.level, 0);
}

#[test]
fn chunks_never_exceed_a_quarter_of_the_clamped_amount() {
    // Buffer 4, request 100: the clamped amount is 4 and its quarter is 1,
    // so four single-unit chunks go out.
    let mut mine = Mine::with_capacity(200);
    mine.step(4).unwrap();
    mine.q.send(Msg::Fuel(100)).unwrap();
    let out = mine.step(0).unwrap();
    assert_eq!(
        out,
        vec![Msg::Fuel(1), Msg::Fuel(1), Msg::Fuel(1), Msg::Fuel(1), Msg::TankMove]
    );
    assert_eq!(mine.reservoir.level, 0);
}

#[test]
fn zero_request_answers_with_move() {
    // The tank's kick-start: a zero-valued request forces a TankMove
    // decision without moving any fuel.
    let mut mine = Mine::new();
    mine.q.send(Msg::Fuel(0)).unwrap();
    let out = mine.step(0).unwrap();
    assert_eq!(out, vec![Msg::TankMove]);
    assert_eq!(mine.reservoir.level, 0);
}

#[test]
fn production_continues_during_a_served_request() {
    let mut mine = Mine::with_capacity(200);
    mine.step(20).unwrap();
    mine.q.send(Msg::Fuel(8)).unwrap();
    let out = mine.step(7).unwrap();
    assert_eq!(out, vec![Msg::Fuel(2), Msg::Fuel(2), Msg::Fuel(2), Msg::Fuel(2), Msg::TankMove]);
    // 20 minus the 8 sent out, plus the 7 produced this cycle.
    assert_eq!(mine.reservoir.level, 19);
}

#[test]
fn wrong_message_kind_for_mine_is_protocol_violation() {
    let mut mine = Mine::new();
    mine.step(10).unwrap();
    mine.q.send(Msg::TankUnload).unwrap();
    assert_eq!(mine.step(5), Err(SimError::UnexpectedMessage));
    assert_eq!(mine.reservoir.level, 10);
}

#[test]
fn blocking_empty_poll_suspends_production() {
    let mut mine = Mine::new();
    mine.q.set_nonblocking(false);
    assert!(mine.step(10).unwrap().is_empty());
    assert_eq!(mine.reservoir.level, 0);
}
