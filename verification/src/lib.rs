//! Core of a closed-loop fuel logistics simulation: a producing Mine, fuel-burning
//! Stations and a Tank that shuttles fuel between them, all driven by typed
//! messages delivered through per-actor FIFO inboxes.
//!
//! Every actor is a state machine stepped by one message (or by an empty poll) at
//! a time; the surrounding process decides only when each actor runs and how much
//! raw production the Mine gains per cycle.
//!
//! Fuel is measured in whole units throughout: amounts, levels and capacities
//! are unsigned integers, transfer chunks are a quarter (floored, never zero
//! for a positive amount), and all reservoir arithmetic clamps to
//! `[0, capacity]`.

pub mod digits;
pub mod errors;
pub mod mine;
pub mod msg;
pub mod posixmq;
pub mod registry;
pub mod reservoir;
pub mod station;
pub mod tank;
pub mod world;
