//! A Station: a fuel-consuming actor.
//!
//! While idle the station polls its inbox without blocking and burns fuel at
//! its constant rate; the tick on which the reservoir reaches zero announces
//! `IdleStation(idx)` exactly once and switches the inbox to blocking, so the
//! station then waits for supply instead of polling. A positive fuel delivery
//! is absorbed up to capacity — any overflow is returned to the tank — and a
//! zero-valued delivery is the pickup ping that releases the station back to
//! non-blocking ticking.

use crate::errors::SimError;
use crate::mine::clamped_add;
use crate::msg::Msg;
use crate::posixmq::{MqError, PMQ, STATION_QUEUE_PREFIX};
use crate::reservoir::FuelReservoir;
use vstd::prelude::*;

verus! {

/// The default station capacity.
pub const STATION_CAPACITY: u64 = 100;

/// A fuel-consuming actor with a bounded reservoir and a constant burn rate.
pub struct Station {
    /// This station's index; its announcements carry it.
    pub idx: usize,
    /// The bounded fuel store.
    pub reservoir: FuelReservoir,
    /// Fuel burnt per tick while not receiving fuel.
    pub burn_rate: u64,
    /// The station's own inbox. Non-blocking while ticking, blocking while a
    /// transfer is in progress or the station waits for supply.
    pub q: PMQ,
}

impl Station {
    /// The bound every step preserves.
    pub open spec fn wf(self) -> bool {
        self.reservoir.wf()
    }

    /// A station with the given index, capacity, starting fuel and burn
    /// rate; its inbox starts empty and non-blocking.
    ///
    /// Messages are routed to a station by its index; the inbox keeps only
    /// the shared identifier prefix, since no global name is needed to
    /// find an in-memory inbox.
    pub fn new(idx: usize, capacity: u64, level: u64, burn_rate: u64) -> (r: Station)
        requires
            level <= capacity,
        ensures
            r.wf(),
            r.idx == idx,
            r.reservoir.capacity == capacity,
            r.reservoir.level == level,
            r.burn_rate == burn_rate,
            r.q.queue@.len() == 0,
            r.q.nonblocking,
            !r.q.closed,
    {
        Station {
            idx,
            reservoir: FuelReservoir::with_level(capacity, level),
            burn_rate,
            q: PMQ::open(STATION_QUEUE_PREFIX).nonblocking(),
        }
    }

    /// The level after one burn tick: the burn rate is taken off, floored
    /// at zero.
    pub open spec fn burned_level(self) -> int {
        if self.burn_rate >= self.reservoir.level {
            0
        } else {
            self.reservoir.level - self.burn_rate
        }
    }

    /// Everything a step from state `pre` sends (all of it addressed to
    /// the tank): the announcement on the tick that runs dry, the overflow
    /// or the `TankUnload` acknowledgment for a delivery, the `TankMove`
    /// answer to a pickup ping, and nothing otherwise.
    pub open spec fn step_out(pre: Station) -> Seq<Msg> {
        if pre.q.closed {
            Seq::empty()
        } else if pre.q.queue@.len() == 0 {
            if pre.q.nonblocking && pre.burned_level() == 0 {
                seq![Msg::IdleStation(pre.idx)]
            } else {
                Seq::empty()
            }
        } else {
            match pre.q.queue@[0] {
                Msg::Fuel(a) => if a == 0 {
                    seq![Msg::TankMove]
                } else if pre.reservoir.level + a > pre.reservoir.capacity {
                    seq![
                        Msg::Fuel((pre.reservoir.level + a - pre.reservoir.capacity) as u64),
                    ]
                } else {
                    seq![Msg::TankUnload]
                },
                _ => Seq::empty(),
            }
        }
    }

    /// Whether a step from state `pre` fails, and how: a closed inbox is
    /// fatal, and any message kind but `Fuel` is a protocol violation.
    pub open spec fn step_err(pre: Station) -> Option<SimError> {
        if pre.q.closed {
            Some(SimError::InboxClosed)
        } else if pre.q.queue@.len() > 0 && !(pre.q.queue@[0] matches Msg::Fuel(_)) {
            Some(SimError::UnexpectedMessage)
        } else {
            None
        }
    }

    /// How a step changes the station itself, in every case: the inbox
    /// head is consumed; an empty non-blocking poll burns one tick (going
    /// blocking on the tick that reaches zero); a positive delivery is
    /// absorbed up to capacity under a blocking inbox; the pickup ping
    /// restores non-blocking ticking; errors leave the reservoir as it
    /// was.
    pub open spec fn step_effect(pre: Station, post: Station) -> bool {
        &&& post.idx == pre.idx
        &&& post.burn_rate == pre.burn_rate
        &&& post.reservoir.capacity == pre.reservoir.capacity
        &&& PMQ::same_identity(post.q, pre.q)
        &&& pre.q.closed ==> post == pre
        &&& !pre.q.closed && pre.q.queue@.len() == 0 && !pre.q.nonblocking ==> post == pre
        &&& !pre.q.closed && pre.q.queue@.len() == 0 && pre.q.nonblocking ==> ({
            &&& post.q.queue@ == pre.q.queue@
            &&& post.reservoir.level == pre.burned_level()
            &&& post.q.nonblocking == (pre.burned_level() > 0)
        })
        &&& !pre.q.closed && pre.q.queue@.len() > 0 ==> post.q.queue@
            == pre.q.queue@.drop_first()
        &&& !pre.q.closed && pre.q.queue@.len() > 0 ==> (pre.q.queue@[0] matches Msg::Fuel(a)
            ==> ({
            &&& a > 0 ==> !post.q.nonblocking && post.reservoir.level == clamped_add(
                pre.reservoir.level as int,
                a as int,
                pre.reservoir.capacity as int,
            )
            &&& a == 0 ==> post.q.nonblocking && post.reservoir == pre.reservoir
        }))
        &&& !pre.q.closed && pre.q.queue@.len() > 0 && !(pre.q.queue@[0] matches Msg::Fuel(_))
            ==> post.reservoir == pre.reservoir && post.q.nonblocking == pre.q.nonblocking
    }

    /// One cycle of the station's loop: poll the inbox and react.
    ///
    /// The returned messages are all addressed to the tank and are exactly
    /// [`Station::step_out`] of the starting state; failure is exactly
    /// [`Station::step_err`] of it. On an empty non-blocking poll the
    /// station burns fuel; the tick on which the reservoir reaches zero
    /// emits `IdleStation(idx)` and switches the inbox to blocking, so the
    /// announcement happens exactly once per idle transition. A positive
    /// `Fuel` is absorbed up to capacity (the inbox turns blocking for the
    /// transfer) and acknowledged with `TankUnload`, or with the overflow
    /// sent back as `Fuel`. `Fuel(0)` is the pickup ping: the station
    /// answers `TankMove` and returns to non-blocking ticking. Any other
    /// message is a protocol violation.
    pub fn step(&mut self) -> (r: Result<Vec<Msg>, SimError>)
        requires
            old(self).wf(),
        ensures
            final(self).wf(),
            Self::step_effect(*old(self), *final(self)),
            (match r {
                Ok(out) => Self::step_err(*old(self)) is None && out@ == Self::step_out(
                    *old(self),
                ),
                Err(e) => Self::step_err(*old(self)) == Some(e) && final(self).reservoir == old(
                    self,
                ).reservoir,
            }),
            // Any announcement a station sends names the station itself.
            r matches Ok(out) ==> forall|j: int|
                0 <= j < out@.len() ==> ((#[trigger] out@[j]) matches Msg::IdleStation(id) ==> id
                    == old(self).idx),
    {
        let msg = self.q.receive();
        match msg {
            Err(MqError::Closed) => Err(SimError::InboxClosed),
            Err(MqError::Empty) => {
                let mut out: Vec<Msg> = Vec::new();
                if self.q.nonblocking {
                    self.reservoir.drain(self.burn_rate);
                    if self.reservoir.level == 0 {
                        out.push(Msg::IdleStation(self.idx));
                        self.q.set_nonblocking(false);
                        proof {
                            assert(out@ =~= seq![Msg::IdleStation(old(self).idx)]);
                        }
                    }
                }
                Ok(out)
            },
            Ok(Msg::Fuel(a)) => {
                let mut out: Vec<Msg> = Vec::new();
                if a > 0 {
                    // A transfer is in progress: stop polling until it is
                    // complete.
                    self.q.set_nonblocking(false);
                    let overflow = self.reservoir.fill(a);
                    if overflow > 0 {
                        out.push(Msg::Fuel(overflow));
                        proof {
                            assert(out@ =~= seq![Msg::Fuel(overflow)]);
                        }
                    } else {
                        out.push(Msg::TankUnload);
                        proof {
                            assert(out@ =~= seq![Msg::TankUnload]);
                        }
                    }
                } else {
                    out.push(Msg::TankMove);
                    self.q.set_nonblocking(true);
                    proof {
                        assert(out@ =~= seq![Msg::TankMove]);
                    }
                }
                Ok(out)
            },
            Ok(_) => Err(SimError::UnexpectedMessage),
        }
    }
}

} // verus!
