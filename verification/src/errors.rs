//! Typed errors for the simulation core.

use vstd::prelude::*;

verus! {

/// A fatal condition met while an actor handled its inbox.
///
/// Protocol violations are programming-invariant failures, not recoverable
/// runtime conditions; an empty receive is *not* an error and never appears
/// here.
#[derive(Clone, Copy, Debug, PartialEq, Eq, Structural)]
pub enum SimError {
    /// The actor's own inbox (or the inbox it must send to) is closed;
    /// the owning actor's loop must end.
    InboxClosed,
    /// A message kind that is invalid for the receiving actor's current state.
    UnexpectedMessage,
    /// The tank was told to unload while no target station was set.
    NoTarget,
    /// A message was addressed to a station index that does not exist.
    UnknownStation,
}

} // verus!
