//! Per-actor message inboxes.
//!
//! Each actor owns exactly one inbox. Delivery within an inbox is FIFO;
//! nothing is promised across inboxes. A receive is either blocking (an
//! empty result means the owner suspends until something arrives) or
//! non-blocking (an empty result is returned at once and stands for the
//! actor's background tick); the owner may toggle the mode at runtime.

use crate::msg::Msg;
use vstd::prelude::*;

verus! {

/// The identifier of the mine's inbox.
pub const MINE_QUEUE: &'static str = "/mq-m";

/// The identifier of the tank's inbox.
pub const VEHICLE_QUEUE: &'static str = "/mq-v";

/// Station inboxes are identified by this prefix followed by the station
/// index.
pub const STATION_QUEUE_PREFIX: &'static str = "/mq-s";

/// Why a send or receive did not yield a message.
#[derive(Clone, Copy, Debug, PartialEq, Eq, Structural)]
pub enum MqError {
    /// The inbox has been closed; fatal for its owner.
    Closed,
    /// No message is pending. Expected and frequent; never a fault.
    Empty,
}

/// One actor's message inbox: a FIFO queue of messages with a receive mode.
pub struct PMQ {
    /// The identifier the inbox was opened under.
    pub name: String,
    /// Pending messages, oldest first.
    pub queue: Vec<Msg>,
    /// When true, an empty receive returns at once instead of suspending
    /// the owner.
    pub nonblocking: bool,
    /// A closed inbox accepts and delivers nothing.
    pub closed: bool,
}

impl PMQ {
    /// Everything but the pending messages is the same in `a` and `b`.
    pub open spec fn same_config(a: PMQ, b: PMQ) -> bool {
        a.name == b.name && a.nonblocking == b.nonblocking && a.closed == b.closed
    }

    /// `a` is the same inbox as `b`, though its receive mode may differ.
    pub open spec fn same_identity(a: PMQ, b: PMQ) -> bool {
        a.name == b.name && a.closed == b.closed
    }

    /// Open the inbox with the given identifier: empty, blocking, open.
    pub fn open(name: &str) -> (r: PMQ)
        ensures
            r.name@ == name@,
            r.queue@ == Seq::<Msg>::empty(),
            !r.nonblocking,
            !r.closed,
    {
        PMQ { name: name.to_owned(), queue: Vec::new(), nonblocking: false, closed: false }
    }

    /// Switch the inbox to non-blocking receives and hand it back.
    pub fn nonblocking(self) -> (r: PMQ)
        ensures
            r.name == self.name,
            r.queue == self.queue,
            r.nonblocking,
            r.closed == self.closed,
    {
        PMQ { name: self.name, queue: self.queue, nonblocking: true, closed: self.closed }
    }

    /// Choose the receive mode: `true` for non-blocking, `false` for
    /// blocking.
    pub fn set_nonblocking(&mut self, b: bool)
        ensures
            final(self).name == old(self).name,
            final(self).queue == old(self).queue,
            final(self).nonblocking == b,
            final(self).closed == old(self).closed,
    {
        self.nonblocking = b;
    }

    /// Queue a message. Non-blocking; fails exactly when the inbox is
    /// closed, in which case nothing changes.
    pub fn send(&mut self, m: Msg) -> (r: Result<(), MqError>)
        ensures
            Self::same_config(*final(self), *old(self)),
            old(self).closed ==> r == Err::<(), MqError>(MqError::Closed) && final(self).queue
                == old(self).queue,
            !old(self).closed ==> r == Ok::<(), MqError>(()) && final(self).queue@ == old(
                self,
            ).queue@.push(m),
    {
        if self.closed {
            Err(MqError::Closed)
        } else {
            self.queue.push(m);
            Ok(())
        }
    }

    /// Take the oldest pending message. `Empty` means no message was
    /// pending: in non-blocking mode the caller goes on with its tick, in
    /// blocking mode the caller suspends. Fails with `Closed` on a closed
    /// inbox.
    pub fn receive(&mut self) -> (r: Result<Msg, MqError>)
        ensures
            Self::same_config(*final(self), *old(self)),
            old(self).closed ==> r == Err::<Msg, MqError>(MqError::Closed) && final(self).queue
                == old(self).queue,
            !old(self).closed && old(self).queue@.len() == 0 ==> r == Err::<Msg, MqError>(
                MqError::Empty,
            ) && final(self).queue == old(self).queue,
            !old(self).closed && old(self).queue@.len() > 0 ==> r == Ok::<Msg, MqError>(
                old(self).queue@[0],
            ) && final(self).queue@ == old(self).queue@.drop_first(),
    {
        if self.closed {
            Err(MqError::Closed)
        } else if self.queue.len() == 0 {
            Err(MqError::Empty)
        } else {
            let m = self.queue.remove(0);
            proof {
                assert(self.queue@ =~= old(self).queue@.drop_first());
            }
            Ok(m)
        }
    }

    /// Close the inbox: from now on every send and receive fails.
    pub fn close(&mut self)
        ensures
            final(self).name == old(self).name,
            final(self).queue == old(self).queue,
            final(self).nonblocking == old(self).nonblocking,
            final(self).closed,
    {
        self.closed = true;
    }

    /// Discard every pending message, as unlinking and recreating the
    /// queue would.
    pub fn clear(&mut self)
        ensures
            Self::same_config(*final(self), *old(self)),
            final(self).queue@ == Seq::<Msg>::empty(),
    {
        self.queue.clear();
    }
}

} // verus!
