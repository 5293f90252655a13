//! Inbox tests: FIFO delivery, the empty and closed outcomes, and the
//! receive-mode toggle.

use power_station::msg::Msg;
use power_station::posixmq::{MqError, PMQ};

#[test]
fn delivery_is_fifo() {
    let mut q = PMQ::open("/mq-t");
    q.send(Msg::TankLoad).unwrap();
    q.send(Msg::Fuel(7)).unwrap();
    q.send(Msg::TankMove).unwrap();
    assert_eq!(q.receive(), Ok(Msg::TankLoad));
    assert_eq!(q.receive(), Ok(Msg::Fuel(7)));
    assert_eq!(q.receive(), Ok(Msg::TankMove));
    assert_eq!(q.receive(), Err(MqError::Empty));
}

#[test]
fn open_keeps_the_identifier_and_starts_blocking() {
    let q = PMQ::open("/mq-x");
    assert_eq!(q.name, "/mq-x");
    assert!(!q.nonblocking);
    assert!(!q.closed);
    assert!(q.queue.is_empty());
}

#[test]
fn mode_toggle() {
    let q = PMQ::open("/mq-t").nonblocking();
    assert!(q.nonblocking);
    let mut q = q;
    q.set_nonblocking(false);
    assert!(!q.nonblocking);
    q.set_nonblocking(true);
    assert!(q.nonblocking);
}

#[test]
fn closed_inbox_fails_both_ways() {
    let mut q = PMQ::open("/mq-t");
    q.send(Msg::TankLoad).unwrap();
    q.close();
    assert_eq!(q.send(Msg::TankMove), Err(MqError::Closed));
    assert_eq!(q.receive(), Err(MqError::Closed));
}

#[test]
fn clear_drops_pending_messages_only() {
    let mut q = PMQ::open("/mq-t").nonblocking();
    q.send(Msg::Fuel(1)).unwrap();
    q.send(Msg::Fuel(2)).unwrap();
    q.clear();
    assert!(q.queue.is_empty());
    assert!(q.nonblocking);
    assert!(!q.closed);
    assert_eq!(q.receive(), Err(MqError::Empty));
}
