//! Wire-codec tests: exact encodings, round trips over every variant and
//! boundary payload, whitespace tolerance, and each decode error.

use power_station::msg::{Msg, MsgError};

fn round_trips(m: Msg) {
    let bytes = m.encode();
    assert_eq!(Msg::decode(&bytes), Ok(m));
}

#[test]
fn round_trip_every_variant() {
    round_trips(Msg::TankLoad);
    round_trips(Msg::TankUnload);
    round_trips(Msg::TankMove);
    round_trips(Msg::IdleStation(0));
    round_trips(Msg::IdleStation(3));
    round_trips(Msg::IdleStation(usize::MAX));
    round_trips(Msg::Fuel(0));
    round_trips(Msg::Fuel(20)); // a full tank
    round_trips(Msg::Fuel(100)); // a full station
    round_trips(Msg::Fuel(200)); // a full mine
    round_trips(Msg::Fuel(u64::MAX));
}

#[test]
fn exact_wire_bytes() {
    assert_eq!(Msg::Fuel(5).encode(), b"fuel 5".to_vec());
    assert_eq!(Msg::Fuel(0).encode(), b"fuel 0".to_vec());
    assert_eq!(Msg::IdleStation(3).encode(), b"idle 3".to_vec());
    assert_eq!(Msg::TankLoad.encode(), b"load".to_vec());
    assert_eq!(Msg::TankUnload.encode(), b"unload".to_vec());
    assert_eq!(Msg::TankMove.encode(), b"move".to_vec());
    assert_eq!(Msg::Fuel(18446744073709551615).encode(), b"fuel 18446744073709551615".to_vec());
}

#[test]
fn decode_tolerates_whitespace() {
    assert_eq!(Msg::decode(&b"  idle \t 7 ".to_vec()), Ok(Msg::IdleStation(7)));
    assert_eq!(Msg::decode(&b"fuel\n12".to_vec()), Ok(Msg::Fuel(12)));
    assert_eq!(Msg::decode(&b" move ".to_vec()), Ok(Msg::TankMove));
}

#[test]
fn decode_missing_payload_reads_zero() {
    assert_eq!(Msg::decode(&b"idle".to_vec()), Ok(Msg::IdleStation(0)));
    assert_eq!(Msg::decode(&b"fuel".to_vec()), Ok(Msg::Fuel(0)));
}

#[test]
fn decode_ignores_extra_tokens() {
    assert_eq!(Msg::decode(&b"fuel 5 9".to_vec()), Ok(Msg::Fuel(5)));
}

#[test]
fn decode_empty_datagram() {
    assert_eq!(Msg::decode(&b"".to_vec()), Err(MsgError::Empty));
    assert_eq!(Msg::decode(&b"   ".to_vec()), Err(MsgError::Empty));
}

#[test]
fn decode_unknown_tag() {
    assert_eq!(Msg::decode(&b"refuel 5".to_vec()), Err(MsgError::UnknownKind));
    assert_eq!(Msg::decode(&b"Fuel 5".to_vec()), Err(MsgError::UnknownKind));
}

#[test]
fn decode_bad_payload() {
    assert_eq!(Msg::decode(&b"fuel x".to_vec()), Err(MsgError::BadPayload));
    assert_eq!(Msg::decode(&b"load x".to_vec()), Err(MsgError::BadPayload));
    // One past u64::MAX.
    assert_eq!(
        Msg::decode(&b"fuel 18446744073709551616".to_vec()),
        Err(MsgError::BadPayload)
    );
    assert_eq!(Msg::decode(&b"fuel -3".to_vec()), Err(MsgError::BadPayload));
}
