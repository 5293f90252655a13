//! The Tank (dispatcher): the transporter actor that shuttles fuel between
//! the mine and the stations.
//!
//! The tank runs a four-state machine — `Refill`, `Supply`, `Load`,
//! `Unload` — driven exclusively by the messages it receives. Each state
//! carries the current fuel percentage, which is observability metadata
//! only and plays no part in the transition logic. Target stations are
//! picked from the idle registry; a station's score drops by one for every
//! chunk supplied to it while it is being fuelled.

use crate::errors::SimError;
use crate::mine::clamped_add;
use crate::msg::Msg;
use crate::posixmq::{MqError, PMQ, VEHICLE_QUEUE};
use crate::registry::{IdleRegistry, DEFAULT_SCORE};
use crate::reservoir::{quarter, quarter_of, FuelReservoir};
use vstd::prelude::*;

verus! {

/// The default tank capacity.
pub const TANK_CAPACITY: u64 = 20;

/// The tank's state, each variant carrying the fuel percentage at the time
/// of the transition (metadata for observers, unused by the logic).
#[derive(Clone, Copy, Debug, PartialEq, Eq, Structural)]
pub enum TankState {
    /// Travelling to (or waiting at) the mine with nothing to deliver.
    Refill(u64),
    /// Travelling to the selected station with fuel on board.
    Supply(u64),
    /// Taking fuel on board at the mine.
    Load(u64),
    /// Handing fuel over to the target station.
    Unload(u64),
}

/// Where an outgoing message is addressed.
#[derive(Clone, Copy, Debug, PartialEq, Eq, Structural)]
pub enum Dest {
    /// The mine's inbox.
    Mine,
    /// The inbox of the station with this index.
    Station(usize),
}

/// `level` as an integer percentage of `cap`.
pub open spec fn percent(level: int, cap: int) -> int
    recommends
        cap >= 1,
{
    level * 100 / cap
}

/// `id` is the registry entry selection must pick: no entry has a higher
/// score, and among entries of equal score none has a lower id.
pub open spec fn is_best(reg: IdleRegistry, id: usize) -> bool {
    reg.contains_id(id) && forall|k: usize|
        #[trigger] reg.contains_id(k) ==> reg.score_of(k) < reg.score_of(id) || (reg.score_of(k)
            == reg.score_of(id) && id <= k)
}

/// `post` is `pre` with `idx` struck out and every other entry kept.
pub open spec fn idle_removed(pre: IdleRegistry, post: IdleRegistry, idx: usize) -> bool {
    &&& !post.contains_id(idx)
    &&& forall|k: usize| k != idx ==> (#[trigger] post.contains_id(k) <==> pre.contains_id(k))
    &&& forall|k: usize|
        k != idx && pre.contains_id(k) ==> #[trigger] post.score_of(k) == pre.score_of(k)
}

/// `post` is `pre` with `idx` (re)registered at `score` and every other
/// entry kept.
pub open spec fn idle_inserted(pre: IdleRegistry, post: IdleRegistry, idx: usize, score: u32) -> bool {
    &&& post.contains_id(idx)
    &&& post.score_of(idx) == score
    &&& forall|k: usize| k != idx ==> (#[trigger] post.contains_id(k) <==> pre.contains_id(k))
    &&& forall|k: usize|
        k != idx && pre.contains_id(k) ==> #[trigger] post.score_of(k) == pre.score_of(k)
}

/// `post` is `pre` with `idx`'s score lowered by one (floored at zero) and
/// every other entry kept; membership is untouched.
pub open spec fn idle_decremented(pre: IdleRegistry, post: IdleRegistry, idx: usize) -> bool {
    &&& forall|k: usize| (#[trigger] post.contains_id(k) <==> pre.contains_id(k))
    &&& pre.contains_id(idx) ==> post.score_of(idx) == (if pre.score_of(idx) > 0 {
        (pre.score_of(idx) - 1) as u32
    } else {
        0u32
    })
    &&& forall|k: usize|
        k != idx && pre.contains_id(k) ==> #[trigger] post.score_of(k) == pre.score_of(k)
}

/// The transporter actor and central orchestrator.
pub struct Tank {
    /// The finite-state machine's current state.
    pub state: TankState,
    /// The fuel on board.
    pub reservoir: FuelReservoir,
    /// The station currently being supplied, if one is set.
    pub target: Option<usize>,
    /// The stations that have announced idleness, with their scores.
    pub idle: IdleRegistry,
    /// The tank's own inbox; it blocks on it between messages.
    pub q: PMQ,
}

impl Tank {
    /// What every step preserves: bounded fuel, unique registry entries,
    /// and a capacity that keeps the percentage arithmetic in range.
    pub open spec fn wf(self) -> bool {
        &&& self.reservoir.wf()
        &&& self.idle.wf()
        &&& 1 <= self.reservoir.capacity <= u64::MAX / 100
    }

    /// Everything but the inbox contents is the same in `post` and `pre`.
    pub open spec fn same_but_queue(pre: Tank, post: Tank) -> bool {
        &&& post.state == pre.state
        &&& post.reservoir == pre.reservoir
        &&& post.target == pre.target
        &&& post.idle == pre.idle
        &&& PMQ::same_config(post.q, pre.q)
    }

    /// A tank of the default capacity: empty, at the mine (`Refill`), no
    /// target, empty registry, blocking inbox.
    pub fn new() -> (r: Tank)
        ensures
            r.wf(),
            r.reservoir.capacity == TANK_CAPACITY,
            r.reservoir.level == 0,
            r.state == TankState::Refill(0u64),
            r.target == None::<usize>,
            r.idle.entries@.len() == 0,
            r.q.queue@.len() == 0,
            !r.q.nonblocking,
            !r.q.closed,
    {
        Tank::with_capacity(TANK_CAPACITY)
    }

    /// A tank of the given capacity. The capacity must be positive and
    /// small enough that `level * 100` cannot overflow.
    pub fn with_capacity(capacity: u64) -> (r: Tank)
        requires
            1 <= capacity <= u64::MAX / 100,
        ensures
            r.wf(),
            r.reservoir.capacity == capacity,
            r.reservoir.level == 0,
            r.state == TankState::Refill(0u64),
            r.target == None::<usize>,
            r.idle.entries@.len() == 0,
            r.q.queue@.len() == 0,
            !r.q.nonblocking,
            !r.q.closed,
    {
        Tank {
            state: TankState::Refill(0),
            reservoir: FuelReservoir::new(capacity),
            target: None,
            idle: IdleRegistry::new(),
            q: PMQ::open(VEHICLE_QUEUE),
        }
    }

    /// The station currently being supplied, if any.
    pub fn get_target(&self) -> (r: Option<usize>)
        ensures
            r == self.target,
    {
        self.target
    }

    /// The state-machine state, with its fuel-percentage metadata.
    pub fn get_state(&self) -> (r: TankState)
        ensures
            r == self.state,
    {
        self.state
    }

    /// The external `TankLoad` command: queue it on the tank's own inbox.
    pub fn load(&mut self) -> (r: Result<(), SimError>)
        ensures
            PMQ::same_config(final(self).q, old(self).q),
            final(self).state == old(self).state,
            final(self).reservoir == old(self).reservoir,
            final(self).target == old(self).target,
            final(self).idle == old(self).idle,
            old(self).q.closed ==> r == Err::<(), SimError>(SimError::InboxClosed)
                && final(self).q.queue == old(self).q.queue,
            !old(self).q.closed ==> r == Ok::<(), SimError>(()) && final(self).q.queue@ == old(
                self,
            ).q.queue@.push(Msg::TankLoad),
    {
        match self.q.send(Msg::TankLoad) {
            Ok(_) => Ok(()),
            Err(_) => Err(SimError::InboxClosed),
        }
    }

    /// The external `TankUnload` command: queue it on the tank's own inbox.
    pub fn unload(&mut self) -> (r: Result<(), SimError>)
        ensures
            PMQ::same_config(final(self).q, old(self).q),
            final(self).state == old(self).state,
            final(self).reservoir == old(self).reservoir,
            final(self).target == old(self).target,
            final(self).idle == old(self).idle,
            old(self).q.closed ==> r == Err::<(), SimError>(SimError::InboxClosed)
                && final(self).q.queue == old(self).q.queue,
            !old(self).q.closed ==> r == Ok::<(), SimError>(()) && final(self).q.queue@ == old(
                self,
            ).q.queue@.push(Msg::TankUnload),
    {
        match self.q.send(Msg::TankUnload) {
            Ok(_) => Ok(()),
            Err(_) => Err(SimError::InboxClosed),
        }
    }

    /// The current fuel percentage.
    fn percent_now(&self) -> (r: u64)
        requires
            self.wf(),
        ensures
            r == percent(self.reservoir.level as int, self.reservoir.capacity as int),
    {
        proof {
            assert(self.reservoir.level * 100 <= u64::MAX) by (nonlinear_arith)
                requires
                    self.reservoir.level <= self.reservoir.capacity,
                    self.reservoir.capacity <= u64::MAX / 100,
            {}
        }
        (self.reservoir.level * 100) / self.reservoir.capacity
    }

    /// Everything a step from state `pre` sends, with its destination: at
    /// most one message per cycle.
    pub open spec fn step_out(pre: Tank) -> Seq<(Dest, Msg)> {
        if pre.q.closed || pre.q.queue@.len() == 0 {
            Seq::empty()
        } else {
            match pre.q.queue@[0] {
                Msg::Fuel(_) => {
                    if pre.state matches TankState::Unload(_) {
                        match pre.target {
                            Some(idx) => seq![(Dest::Station(idx), Msg::Fuel(0u64))],
                            None => Seq::empty(),
                        }
                    } else {
                        Seq::empty()
                    }
                },
                Msg::TankLoad => seq![
                    (
                        Dest::Mine,
                        Msg::Fuel((pre.reservoir.capacity - pre.reservoir.level) as u64),
                    ),
                ],
                Msg::TankUnload => {
                    match pre.target {
                        Some(idx) => {
                            let chunk = if quarter(pre.reservoir.capacity as int)
                                >= pre.reservoir.level as int {
                                pre.reservoir.level as int
                            } else {
                                quarter(pre.reservoir.capacity as int)
                            };
                            seq![(Dest::Station(idx), Msg::Fuel(chunk as u64))]
                        },
                        None => Seq::empty(),
                    }
                },
                Msg::TankMove => {
                    if (pre.state matches TankState::Load(_)) && pre.reservoir.level < quarter(
                        pre.reservoir.capacity as int,
                    ) {
                        seq![
                            (
                                Dest::Mine,
                                Msg::Fuel((pre.reservoir.capacity - pre.reservoir.level) as u64),
                            ),
                        ]
                    } else {
                        Seq::empty()
                    }
                },
                Msg::IdleStation(_) => {
                    if pre.target is None {
                        seq![(Dest::Mine, Msg::Fuel(0u64))]
                    } else {
                        Seq::empty()
                    }
                },
            }
        }
    }

    /// Whether a step from state `pre` fails, and how: a closed inbox is
    /// fatal; fuel outside `Load` or `Unload` is a protocol violation; an
    /// unload (or a returned remainder) with no target set is a broken
    /// programming invariant.
    pub open spec fn step_err(pre: Tank) -> Option<SimError> {
        if pre.q.closed {
            Some(SimError::InboxClosed)
        } else if pre.q.queue@.len() == 0 {
            None
        } else {
            match pre.q.queue@[0] {
                Msg::Fuel(_) => {
                    if pre.state matches TankState::Load(_) {
                        None
                    } else if pre.state matches TankState::Unload(_) {
                        if pre.target is Some {
                            None
                        } else {
                            Some(SimError::NoTarget)
                        }
                    } else {
                        Some(SimError::UnexpectedMessage)
                    }
                },
                Msg::TankUnload => {
                    if pre.target is Some {
                        None
                    } else {
                        Some(SimError::NoTarget)
                    }
                },
                _ => None,
            }
        }
    }

    /// One cycle of the dispatcher's loop: take the oldest message from the
    /// inbox and run the transition it commands.
    ///
    /// The returned messages carry their destination. `TankUnload` or a
    /// returned remainder with no target set, and `Fuel` outside `Load` or
    /// `Unload`, are protocol violations: the step reports the typed error
    /// and changes nothing but the consumed message. An empty inbox means
    /// the (blocking) owner suspends: nothing changes.
    ///
    /// A station id enters the idle registry only when its `IdleStation`
    /// announcement is consumed, and leaves it only when the station
    /// returns a remainder while it is the unload target — the completed
    /// transfer.
    pub fn step(&mut self) -> (r: Result<Vec<(Dest, Msg)>, SimError>)
        requires
            old(self).wf(),
        ensures
            final(self).wf(),
            final(self).reservoir.capacity == old(self).reservoir.capacity,
            PMQ::same_config(final(self).q, old(self).q),
            old(self).q.closed ==> r == Err::<Vec<(Dest, Msg)>, SimError>(SimError::InboxClosed)
                && *final(self) == *old(self),
            !old(self).q.closed && old(self).q.queue@.len() == 0 ==> (r matches Ok(out) && out@
                == Seq::<(Dest, Msg)>::empty()) && *final(self) == *old(self),
            !old(self).q.closed && old(self).q.queue@.len() > 0 ==> final(self).q.queue@ == old(
                self,
            ).q.queue@.drop_first() && (match r {
                Ok(v) => Self::step_case(
                    *old(self),
                    *final(self),
                    old(self).q.queue@[0],
                    v@,
                    None::<SimError>,
                ),
                Err(e) => Self::step_case(
                    *old(self),
                    *final(self),
                    old(self).q.queue@[0],
                    Seq::<(Dest, Msg)>::empty(),
                    Some(e),
                ),
            }),
            // The messages sent and the failure mode are functions of the
            // starting state alone.
            (match r {
                Ok(v) => Self::step_err(*old(self)) is None && v@ == Self::step_out(*old(self)),
                Err(e) => Self::step_err(*old(self)) == Some(e),
            }),
            // A station id enters the registry only on its announcement ...
            forall|id: usize|
                final(self).idle.contains_id(id) && !old(self).idle.contains_id(id) ==> old(
                    self,
                ).q.queue@.len() > 0 && old(self).q.queue@[0] == Msg::IdleStation(id),
            // ... and leaves it only on the remainder that completes its
            // unload.
            forall|id: usize|
                old(self).idle.contains_id(id) && !final(self).idle.contains_id(id) ==> old(
                    self,
                ).q.queue@.len() > 0 && (old(self).q.queue@[0] matches Msg::Fuel(_)) && (old(
                    self,
                ).state matches TankState::Unload(_)) && old(self).target == Some(id),
            // Everything addressed to a station goes to the current target.
            r matches Ok(out) ==> forall|j: int|
                0 <= j < out@.len() ==> ((#[trigger] out@[j]).0 matches Dest::Station(i) ==> old(
                    self,
                ).target == Some(i)),
            // A target is only ever taken over from before, read off a
            // consumed announcement, or picked from the registry.
            final(self).target matches Some(id) ==> old(self).target == Some(id) || (old(
                self,
            ).q.queue@.len() > 0 && old(self).q.queue@[0] == Msg::IdleStation(id)) || old(
                self,
            ).idle.contains_id(id),
    {
        let msg = match self.q.receive() {
            Err(MqError::Closed) => {
                return Err(SimError::InboxClosed);
            },
            Err(MqError::Empty) => {
                return Ok(Vec::new());
            },
            Ok(m) => m,
        };
        match msg {
            Msg::Fuel(a) => {
                match self.state {
                    TankState::Load(_) => {
                        let _ = self.reservoir.fill(a);
                        self.state = TankState::Load(self.percent_now());
                        Ok(Vec::new())
                    },
                    TankState::Unload(_) => {
                        match self.target {
                            Some(idx) => {
                                let _ = self.reservoir.fill(a);
                                self.state = TankState::Unload(self.percent_now());
                                self.idle.remove(idx);
                                let mut out: Vec<(Dest, Msg)> = Vec::new();
                                out.push((Dest::Station(idx), Msg::Fuel(0)));
                                proof {
                                    assert(out@ =~= seq![(Dest::Station(idx), Msg::Fuel(0u64))]);
                                }
                                Ok(out)
                            },
                            None => Err(SimError::NoTarget),
                        }
                    },
                    _ => Err(SimError::UnexpectedMessage),
                }
            },
            Msg::TankLoad => {
                let room = self.reservoir.room();
                self.state = TankState::Load(self.percent_now());
                let mut out: Vec<(Dest, Msg)> = Vec::new();
                out.push((Dest::Mine, Msg::Fuel(room)));
                proof {
                    assert(out@ =~= seq![(Dest::Mine, Msg::Fuel(room))]);
                }
                Ok(out)
            },
            Msg::TankUnload => {
                match self.target {
                    Some(idx) => {
                        let quarter_cap = quarter_of(self.reservoir.capacity);
                        let chunk = self.reservoir.take(quarter_cap);
                        self.state = TankState::Unload(self.percent_now());
                        self.idle.decrement(idx);
                        let mut out: Vec<(Dest, Msg)> = Vec::new();
                        out.push((Dest::Station(idx), Msg::Fuel(chunk)));
                        proof {
                            assert(out@ =~= seq![(Dest::Station(idx), Msg::Fuel(chunk))]);
                        }
                        Ok(out)
                    },
                    None => Err(SimError::NoTarget),
                }
            },
            Msg::TankMove => {
                match self.state {
                    TankState::Load(_) => {
                        let quarter_cap = quarter_of(self.reservoir.capacity);
                        if self.reservoir.level < quarter_cap {
                            // Not enough on board to start supplying: ask
                            // the mine for the rest.
                            let room = self.reservoir.room();
                            let mut out: Vec<(Dest, Msg)> = Vec::new();
                            out.push((Dest::Mine, Msg::Fuel(room)));
                            proof {
                                assert(out@ =~= seq![(Dest::Mine, Msg::Fuel(room))]);
                            }
                            Ok(out)
                        } else {
                            if self.target.is_none() {
                                self.target = self.idle.select();
                            }
                            if self.target.is_some() {
                                self.state = TankState::Supply(self.percent_now());
                            }
                            Ok(Vec::new())
                        }
                    },
                    _ => {
                        match self.idle.select() {
                            Some(idx) => {
                                self.target = Some(idx);
                                if self.reservoir.level == 0 {
                                    self.state = TankState::Refill(self.percent_now());
                                } else {
                                    self.state = TankState::Supply(self.percent_now());
                                }
                            },
                            None => {
                                self.target = None;
                                self.state = TankState::Refill(self.percent_now());
                            },
                        }
                        Ok(Vec::new())
                    },
                }
            },
            Msg::IdleStation(idx) => {
                let mut out: Vec<(Dest, Msg)> = Vec::new();
                if self.target.is_none() {
                    // Kick-start movement: a zero-valued request makes the
                    // mine answer with a TankMove.
                    self.target = Some(idx);
                    out.push((Dest::Mine, Msg::Fuel(0)));
                    proof {
                        assert(out@ =~= seq![(Dest::Mine, Msg::Fuel(0u64))]);
                    }
                }
                self.idle.insert(idx, DEFAULT_SCORE);
                Ok(out)
            },
        }
    }

    /// What a step does once a message `m` has been taken off the inbox,
    /// by message kind and state. `pre` and `post` are the tank before and
    /// after; on success `err` is `None` and `out` carries the addressed
    /// messages sent; on failure `err` names the error and nothing is
    /// sent.
    pub open spec fn step_case(
        pre: Tank,
        post: Tank,
        m: Msg,
        out: Seq<(Dest, Msg)>,
        err: Option<SimError>,
    ) -> bool {
        match m {
            Msg::Fuel(a) => {
                &&& (pre.state matches TankState::Load(_) ==> ({
                    let lvl = clamped_add(
                        pre.reservoir.level as int,
                        a as int,
                        pre.reservoir.capacity as int,
                    );
                    &&& err is None && out == Seq::<(Dest, Msg)>::empty()
                    &&& post.reservoir.level == lvl
                    &&& post.state == TankState::Load(
                        percent(lvl, pre.reservoir.capacity as int) as u64,
                    )
                    &&& post.target == pre.target
                    &&& post.idle == pre.idle
                }))
                &&& (pre.state matches TankState::Unload(_) ==> ({
                    &&& pre.target matches Some(idx) ==> ({
                        let lvl = clamped_add(
                            pre.reservoir.level as int,
                            a as int,
                            pre.reservoir.capacity as int,
                        );
                        &&& err is None && out == seq![(Dest::Station(idx), Msg::Fuel(0u64))]
                        &&& post.reservoir.level == lvl
                        &&& post.state == TankState::Unload(
                            percent(lvl, pre.reservoir.capacity as int) as u64,
                        )
                        &&& post.target == pre.target
                        &&& idle_removed(pre.idle, post.idle, idx)
                    })
                    &&& pre.target is None ==> err == Some(SimError::NoTarget)
                        && Self::same_but_queue(pre, post)
                }))
                &&& ((pre.state matches TankState::Refill(_) || pre.state matches
                    TankState::Supply(_)) ==> err == Some(SimError::UnexpectedMessage)
                    && Self::same_but_queue(pre, post))
            },
            Msg::TankLoad => {
                &&& err is None && out == seq![
                    (
                        Dest::Mine,
                        Msg::Fuel((pre.reservoir.capacity - pre.reservoir.level) as u64),
                    ),
                ]
                &&& post.reservoir == pre.reservoir
                &&& post.state == TankState::Load(
                    percent(pre.reservoir.level as int, pre.reservoir.capacity as int) as u64,
                )
                &&& post.target == pre.target
                &&& post.idle == pre.idle
            },
            Msg::TankUnload => {
                &&& pre.target matches Some(idx) ==> ({
                    let chunk = if quarter(pre.reservoir.capacity as int)
                        >= pre.reservoir.level as int {
                        pre.reservoir.level as int
                    } else {
                        quarter(pre.reservoir.capacity as int)
                    };
                    let lvl = pre.reservoir.level - chunk;
                    &&& err is None && out == seq![(Dest::Station(idx), Msg::Fuel(chunk as u64))]
                    &&& post.reservoir.level == lvl
                    &&& post.state == TankState::Unload(
                        percent(lvl, pre.reservoir.capacity as int) as u64,
                    )
                    &&& post.target == pre.target
                    &&& idle_decremented(pre.idle, post.idle, idx)
                })
                &&& pre.target is None ==> err == Some(SimError::NoTarget)
                    && Self::same_but_queue(pre, post)
            },
            Msg::TankMove => {
                let pct = percent(pre.reservoir.level as int, pre.reservoir.capacity as int);
                &&& post.reservoir == pre.reservoir
                &&& post.idle == pre.idle
                &&& (pre.state matches TankState::Load(_) ==> ({
                    &&& pre.reservoir.level < quarter(pre.reservoir.capacity as int) ==> ({
                        &&& err is None && out == seq![
                            (
                                Dest::Mine,
                                Msg::Fuel((pre.reservoir.capacity - pre.reservoir.level) as u64),
                            ),
                        ]
                        &&& post.state == pre.state
                        &&& post.target == pre.target
                    })
                    &&& pre.reservoir.level >= quarter(pre.reservoir.capacity as int) ==> ({
                        &&& err is None && out == Seq::<(Dest, Msg)>::empty()
                        &&& (pre.target is Some ==> post.target == pre.target)
                        &&& (pre.target is None && pre.idle.entries@.len() == 0 ==> post.target
                            is None)
                        &&& (pre.target is None && pre.idle.entries@.len() > 0 ==> (post.target
                            matches Some(id) && is_best(pre.idle, id)))
                        &&& (post.target is Some ==> post.state == TankState::Supply(pct as u64))
                        &&& (post.target is None ==> post.state == pre.state)
                    })
                }))
                &&& (!(pre.state matches TankState::Load(_)) ==> ({
                    &&& err is None && out == Seq::<(Dest, Msg)>::empty()
                    &&& (pre.idle.entries@.len() == 0 ==> post.target is None && post.state
                        == TankState::Refill(pct as u64))
                    &&& (pre.idle.entries@.len() > 0 ==> ({
                        &&& post.target matches Some(id) && is_best(pre.idle, id)
                        &&& pre.reservoir.level == 0 ==> post.state == TankState::Refill(
                            pct as u64,
                        )
                        &&& pre.reservoir.level > 0 ==> post.state == TankState::Supply(
                            pct as u64,
                        )
                    }))
                }))
            },
            Msg::IdleStation(idx) => {
                &&& post.reservoir == pre.reservoir
                &&& post.state == pre.state
                &&& idle_inserted(pre.idle, post.idle, idx, DEFAULT_SCORE)
                &&& (pre.target is None ==> post.target == Some(idx) && err is None && out
                    == seq![(Dest::Mine, Msg::Fuel(0u64))])
                &&& (pre.target is Some ==> post.target == pre.target && err is None && out
                    == Seq::<(Dest, Msg)>::empty())
            },
        }
    }
}

} // verus!
