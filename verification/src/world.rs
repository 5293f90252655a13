//! The whole simulation in one value: the mine, the stations and the tank,
//! each with its own inbox.
//!
//! A scheduler (the caller) picks which actor runs next; `step` runs one
//! cycle of that actor's loop and delivers exactly what it sent into the
//! destination inboxes, in order. The bounded-reservoir invariants hold
//! after every step, whatever the interleaving the scheduler chooses.

use crate::errors::SimError;
use crate::mine::Mine;
use crate::msg::Msg;
use crate::posixmq::PMQ;
use crate::station::Station;
use crate::tank::{Dest, Tank};
use vstd::prelude::*;

verus! {

/// Which actor the scheduler lets run next.
#[derive(Clone, Copy, Debug, PartialEq, Eq, Structural)]
pub enum Turn {
    /// The mine runs one cycle.
    MineTurn,
    /// The tank runs one cycle.
    TankTurn,
    /// The station with this index runs one cycle.
    StationTurn(usize),
}

/// Mutable access to one station of the fleet.
fn station_mut(stations: &mut Vec<Station>, i: usize) -> (st: &mut Station)
    requires
        i < old(stations)@.len(),
    ensures
        *st == old(stations)@[i as int],
        final(stations)@ == old(stations)@.update(i as int, *final(st)),
{
    &mut stations[i]
}

/// The full simulation state.
pub struct World {
    /// The producing actor.
    pub mine: Mine,
    /// The consuming actors; the station at position `i` has index `i`.
    pub stations: Vec<Station>,
    /// The transporter and orchestrator.
    pub tank: Tank,
}

impl World {
    /// Every reservoir within its bounds, the registry well-formed, and
    /// each station holding its own position as index.
    pub open spec fn wf(self) -> bool {
        &&& self.mine.wf()
        &&& self.tank.wf()
        &&& forall|i: int|
            0 <= i < self.stations@.len() ==> (#[trigger] self.stations@[i]).wf()
        &&& forall|i: int|
            0 <= i < self.stations@.len() ==> (#[trigger] self.stations@[i]).idx == i
    }

    /// Every station id the dispatcher works with names a real station:
    /// the registry entries, the current target, and the announcements
    /// still queued in the tank's inbox. `step` preserves this bound, so
    /// in a world driven only through `step` no message is ever addressed
    /// to a station that does not exist.
    pub open spec fn ids_in_range(self) -> bool {
        &&& forall|id: usize|
            #[trigger] self.tank.idle.contains_id(id) ==> id < self.stations@.len()
        &&& self.tank.target matches Some(id) ==> id < self.stations@.len()
        &&& forall|j: int|
            0 <= j < self.tank.q.queue@.len() ==> ((#[trigger] self.tank.q.queue@[j]) matches
                Msg::IdleStation(id) ==> id < self.stations@.len())
    }

    /// `post`'s tank is `pre`'s with exactly `out` appended to its inbox
    /// and nothing else of the tank changed.
    pub open spec fn delivered_to_tank(pre: World, post: World, out: Seq<Msg>) -> bool {
        &&& Tank::same_but_queue(pre.tank, post.tank)
        &&& post.tank.q.queue@ == pre.tank.q.queue@ + out
    }

    /// `post` is the station `pre` with exactly `m` appended to its inbox
    /// and nothing else changed.
    pub open spec fn station_received(pre: Station, post: Station, m: Msg) -> bool {
        &&& post.idx == pre.idx
        &&& post.reservoir == pre.reservoir
        &&& post.burn_rate == pre.burn_rate
        &&& PMQ::same_config(post.q, pre.q)
        &&& post.q.queue@ == pre.q.queue@.push(m)
    }

    /// What a mine turn does: the mine steps exactly per its contract and,
    /// on success, its whole stream is appended to the tank's inbox in
    /// order. The call succeeds unless the mine fails or the tank's inbox
    /// is closed while there is something to deliver.
    pub open spec fn mine_turn_case(
        pre: World,
        post: World,
        production: u64,
        r: Result<(), SimError>,
    ) -> bool {
        let out = Mine::step_out(pre.mine);
        &&& post.stations@ == pre.stations@
        &&& Mine::step_effect(pre.mine, post.mine, production)
        &&& (Mine::step_err(pre.mine) matches Some(e) ==> r == Err::<(), SimError>(e) && post.tank
            == pre.tank)
        &&& (Mine::step_err(pre.mine) is None ==> ({
            &&& pre.tank.q.closed && out.len() > 0 ==> r == Err::<(), SimError>(
                SimError::InboxClosed,
            ) && post.tank == pre.tank
            &&& pre.tank.q.closed && out.len() == 0 ==> r == Ok::<(), SimError>(()) && post.tank
                == pre.tank
            &&& !pre.tank.q.closed ==> r == Ok::<(), SimError>(()) && Self::delivered_to_tank(
                pre,
                post,
                out,
            )
        }))
    }

    /// What a station turn does: station `s` steps exactly per its
    /// contract, every other station is untouched and, on success, its
    /// messages are appended to the tank's inbox. The call succeeds unless
    /// the station fails or the tank's inbox is closed while there is
    /// something to deliver.
    pub open spec fn station_turn_case(
        pre: World,
        post: World,
        s: usize,
        r: Result<(), SimError>,
    ) -> bool {
        let st = pre.stations@[s as int];
        let out = Station::step_out(st);
        &&& post.mine == pre.mine
        &&& post.stations@.len() == pre.stations@.len()
        &&& forall|j: int|
            0 <= j < pre.stations@.len() && j != s ==> #[trigger] post.stations@[j]
                == pre.stations@[j]
        &&& Station::step_effect(st, post.stations@[s as int])
        &&& (Station::step_err(st) matches Some(e) ==> r == Err::<(), SimError>(e) && post.tank
            == pre.tank)
        &&& (Station::step_err(st) is None ==> ({
            &&& pre.tank.q.closed && out.len() > 0 ==> r == Err::<(), SimError>(
                SimError::InboxClosed,
            ) && post.tank == pre.tank
            &&& pre.tank.q.closed && out.len() == 0 ==> r == Ok::<(), SimError>(()) && post.tank
                == pre.tank
            &&& !pre.tank.q.closed ==> r == Ok::<(), SimError>(()) && Self::delivered_to_tank(
                pre,
                post,
                out,
            )
        }))
    }

    /// What a tank turn does: the tank steps exactly per its transition
    /// table and its (at most one) addressed message is appended to the
    /// mine's or the target station's inbox. A destination that does not
    /// exist is reported as `UnknownStation`; a closed destination inbox
    /// is fatal.
    pub open spec fn tank_turn_case(pre: World, post: World, r: Result<(), SimError>) -> bool {
        let out = Tank::step_out(pre.tank);
        &&& pre.tank.q.closed ==> r == Err::<(), SimError>(SimError::InboxClosed) && post == pre
        &&& !pre.tank.q.closed && pre.tank.q.queue@.len() == 0 ==> r == Ok::<(), SimError>(())
            && post == pre
        &&& !pre.tank.q.closed && pre.tank.q.queue@.len() > 0 ==> ({
            let head = pre.tank.q.queue@[0];
            &&& post.tank.q.queue@ == pre.tank.q.queue@.drop_first()
            &&& (Tank::step_err(pre.tank) matches Some(e) ==> ({
                &&& r == Err::<(), SimError>(e)
                &&& post.mine == pre.mine
                &&& post.stations@ == pre.stations@
                &&& Tank::step_case(pre.tank, post.tank, head, Seq::empty(), Some(e))
            }))
            &&& (Tank::step_err(pre.tank) is None ==> ({
                &&& Tank::step_case(pre.tank, post.tank, head, out, None::<SimError>)
                &&& out.len() == 0 ==> r == Ok::<(), SimError>(()) && post.mine == pre.mine
                    && post.stations@ == pre.stations@
                &&& out.len() > 0 ==> ({
                    let dest = out[0].0;
                    let m = out[0].1;
                    &&& (dest matches Dest::Mine ==> post.stations@ == pre.stations@ && ({
                        &&& pre.mine.q.closed ==> r == Err::<(), SimError>(SimError::InboxClosed)
                            && post.mine == pre.mine
                        &&& !pre.mine.q.closed ==> r == Ok::<(), SimError>(())
                            && post.mine.reservoir == pre.mine.reservoir && PMQ::same_config(
                            post.mine.q,
                            pre.mine.q,
                        ) && post.mine.q.queue@ == pre.mine.q.queue@.push(m)
                    }))
                    &&& (dest matches Dest::Station(idx) ==> post.mine == pre.mine && ({
                        &&& idx >= pre.stations@.len() ==> r == Err::<(), SimError>(
                            SimError::UnknownStation,
                        ) && post.stations@ == pre.stations@
                        &&& idx < pre.stations@.len() ==> ({
                            &&& pre.stations@[idx as int].q.closed ==> r == Err::<(), SimError>(
                                SimError::InboxClosed,
                            ) && post.stations@ == pre.stations@
                            &&& !pre.stations@[idx as int].q.closed ==> r == Ok::<(), SimError>(())
                                && post.stations@.len() == pre.stations@.len() && (forall|j: int|
                                0 <= j < pre.stations@.len() && j != idx
                                    ==> #[trigger] post.stations@[j] == pre.stations@[j])
                                && Self::station_received(
                                pre.stations@[idx as int],
                                post.stations@[idx as int],
                                m,
                            )
                        })
                    }))
                })
            }))
        })
    }

    /// A world with the default capacities: the default mine, empty;
    /// `num_stations` stations, each with the default capacity, 10 fuel on
    /// hand, burning `burn_rate` per tick, and a fresh non-blocking inbox;
    /// and the default tank, empty at the mine with nothing registered.
    #[verifier::loop_isolation(false)]
    pub fn new(num_stations: usize, burn_rate: u64) -> (r: World)
        ensures
            r.wf(),
            r.ids_in_range(),
            r.stations@.len() == num_stations,
            r.mine.reservoir.capacity == crate::mine::MINE_CAPACITY,
            r.mine.reservoir.level == 0,
            r.mine.q.queue@.len() == 0,
            r.mine.q.nonblocking,
            !r.mine.q.closed,
            r.tank.reservoir.capacity == crate::tank::TANK_CAPACITY,
            r.tank.reservoir.level == 0,
            r.tank.state == crate::tank::TankState::Refill(0u64),
            r.tank.target == None::<usize>,
            r.tank.idle.entries@.len() == 0,
            r.tank.q.queue@.len() == 0,
            !r.tank.q.nonblocking,
            !r.tank.q.closed,
            forall|i: int|
                0 <= i < num_stations ==> ({
                    let st = #[trigger] r.stations@[i];
                    &&& st.idx == i
                    &&& st.reservoir.capacity == crate::station::STATION_CAPACITY
                    &&& st.reservoir.level == 10
                    &&& st.burn_rate == burn_rate
                    &&& st.q.queue@.len() == 0
                    &&& st.q.nonblocking
                    &&& !st.q.closed
                }),
    {
        let mine = Mine::new();
        let tank = Tank::new();
        let mut stations: Vec<Station> = Vec::new();
        let mut i: usize = 0;
        while i < num_stations
            invariant
                0 <= i <= num_stations,
                stations@.len() == i,
                forall|j: int|
                    0 <= j < i ==> ({
                        let st = #[trigger] stations@[j];
                        &&& st.wf()
                        &&& st.idx == j
                        &&& st.reservoir.capacity == crate::station::STATION_CAPACITY
                        &&& st.reservoir.level == 10
                        &&& st.burn_rate == burn_rate
                        &&& st.q.queue@.len() == 0
                        &&& st.q.nonblocking
                        &&& !st.q.closed
                    }),
            decreases num_stations - i,
        {
            stations.push(Station::new(i, crate::station::STATION_CAPACITY, 10, burn_rate));
            i = i + 1;
        }
        World { mine, stations, tank }
    }

    /// Run one cycle of the chosen actor and deliver exactly what it sent.
    ///
    /// Messages from the mine and the stations are appended, in order, to
    /// the tank's inbox; the tank's message goes to the inbox it is
    /// addressed to. The per-turn clauses below pin the whole outcome: the
    /// actor steps exactly per its own contract, delivery appends exactly
    /// its output, and the call returns `Ok` unless the actor fails or a
    /// destination inbox is closed (a destination station that does not
    /// exist is reported as `UnknownStation`). The well-formedness bounds
    /// — every reservoir within `[0, capacity]` — survive every step,
    /// whichever turns the scheduler picks.
    #[verifier::loop_isolation(false)]
    pub fn step(&mut self, turn: Turn, production: u64) -> (r: Result<(), SimError>)
        requires
            old(self).wf(),
            turn matches Turn::StationTurn(s) ==> s < old(self).stations@.len(),
        ensures
            final(self).wf(),
            final(self).stations@.len() == old(self).stations@.len(),
            final(self).mine.reservoir.capacity == old(self).mine.reservoir.capacity,
            final(self).tank.reservoir.capacity == old(self).tank.reservoir.capacity,
            forall|i: int|
                0 <= i < old(self).stations@.len() ==> (
                #[trigger] final(self).stations@[i]).reservoir.capacity == old(
                    self,
                ).stations@[i].reservoir.capacity && final(self).stations@[i].burn_rate == old(
                    self,
                ).stations@[i].burn_rate,
            // The whole outcome of the turn, per acting component.
            turn == Turn::MineTurn ==> Self::mine_turn_case(
                *old(self),
                *final(self),
                production,
                r,
            ),
            turn matches Turn::StationTurn(s) ==> Self::station_turn_case(
                *old(self),
                *final(self),
                s,
                r,
            ),
            turn == Turn::TankTurn ==> Self::tank_turn_case(*old(self), *final(self), r),
            // A station id enters the idle registry only when the tank
            // consumes its announcement ...
            forall|id: usize|
                final(self).tank.idle.contains_id(id) && !old(self).tank.idle.contains_id(id)
                    ==> turn == Turn::TankTurn && old(self).tank.q.queue@.len() > 0 && old(
                    self,
                ).tank.q.queue@[0] == Msg::IdleStation(id),
            // ... and leaves it only on the remainder that completes an
            // unload aimed at that station.
            forall|id: usize|
                old(self).tank.idle.contains_id(id) && !final(self).tank.idle.contains_id(id)
                    ==> turn == Turn::TankTurn && old(self).tank.q.queue@.len() > 0 && (old(
                    self,
                ).tank.q.queue@[0] matches Msg::Fuel(_)) && (old(self).tank.state matches
                    crate::tank::TankState::Unload(_)) && old(self).tank.target == Some(id),
            // The closed-loop bound: ids keep naming real stations, so a
            // world driven only through `step` never reports a message to
            // a station that does not exist.
            old(self).ids_in_range() ==> final(self).ids_in_range(),
            old(self).ids_in_range() ==> r != Err::<(), SimError>(SimError::UnknownStation),
    {
        match turn {
            Turn::MineTurn => {
                let out = match self.mine.step(production) {
                    Ok(o) => o,
                    Err(e) => {
                        return Err(e);
                    },
                };
                let ghost mine_after = self.mine;
                let ghost q0 = old(self).tank.q.queue@;
                let n = out.len();
                let mut i: usize = 0;
                proof {
                    assert(self.tank.q.queue@ =~= q0 + out@.subrange(0, 0));
                }
                while i < n
                    invariant
                        0 <= i <= n,
                        self.wf(),
                        n == out@.len(),
                        self.stations@ == old(self).stations@,
                        self.mine == mine_after,
                        self.tank.idle == old(self).tank.idle,
                        self.tank.target == old(self).tank.target,
                        self.tank.state == old(self).tank.state,
                        self.tank.reservoir == old(self).tank.reservoir,
                        PMQ::same_config(self.tank.q, old(self).tank.q),
                        self.tank.q.queue@ == q0 + out@.subrange(0, i as int),
                        i == 0 ==> self.tank == old(self).tank,
                        i > 0 ==> !old(self).tank.q.closed,
                        old(self).ids_in_range() ==> self.ids_in_range(),
                    decreases n - i,
                {
                    match self.tank.q.send(out[i]) {
                        Ok(_) => {},
                        Err(_) => {
                            proof {
                                assert(i == 0);
                                assert(self.tank.q.queue == old(self).tank.q.queue);
                                assert(self.tank.q == old(self).tank.q);
                                assert(self.tank == old(self).tank);
                            }
                            return Err(SimError::InboxClosed);
                        },
                    }
                    proof {
                        assert(self.tank.q.queue@ =~= q0 + out@.subrange(0, i + 1));
                    }
                    i = i + 1;
                }
                proof {
                    assert(out@.subrange(0, n as int) =~= out@);
                    if old(self).tank.q.closed {
                        assert(n == 0);
                        assert(self.tank == old(self).tank);
                    }
                }
                Ok(())
            },
            Turn::StationTurn(s) => {
                let st = station_mut(&mut self.stations, s);
                let out = match st.step() {
                    Ok(o) => o,
                    Err(e) => {
                        return Err(e);
                    },
                };
                let ghost stations_after = self.stations@;
                let ghost mine_before = self.mine;
                let ghost q0 = old(self).tank.q.queue@;
                let n = out.len();
                let mut i: usize = 0;
                proof {
                    assert(self.tank.q.queue@ =~= q0 + out@.subrange(0, 0));
                }
                while i < n
                    invariant
                        0 <= i <= n,
                        self.wf(),
                        n == out@.len(),
                        self.stations@ == stations_after,
                        self.stations@.len() == old(self).stations@.len(),
                        self.mine == mine_before,
                        self.tank.idle == old(self).tank.idle,
                        self.tank.target == old(self).tank.target,
                        self.tank.state == old(self).tank.state,
                        self.tank.reservoir == old(self).tank.reservoir,
                        PMQ::same_config(self.tank.q, old(self).tank.q),
                        self.tank.q.queue@ == q0 + out@.subrange(0, i as int),
                        i == 0 ==> self.tank == old(self).tank,
                        i > 0 ==> !old(self).tank.q.closed,
                        old(self).ids_in_range() ==> self.ids_in_range(),
                    decreases n - i,
                {
                    match self.tank.q.send(out[i]) {
                        Ok(_) => {},
                        Err(_) => {
                            proof {
                                assert(i == 0);
                                assert(self.tank.q.queue == old(self).tank.q.queue);
                                assert(self.tank.q == old(self).tank.q);
                                assert(self.tank == old(self).tank);
                            }
                            return Err(SimError::InboxClosed);
                        },
                    }
                    proof {
                        assert(self.tank.q.queue@ =~= q0 + out@.subrange(0, i + 1));
                    }
                    i = i + 1;
                }
                proof {
                    assert(out@.subrange(0, n as int) =~= out@);
                    if old(self).tank.q.closed {
                        assert(n == 0);
                        assert(self.tank == old(self).tank);
                    }
                }
                Ok(())
            },
            Turn::TankTurn => {
                let out = match self.tank.step() {
                    Ok(o) => o,
                    Err(e) => {
                        return Err(e);
                    },
                };
                proof {
                    if old(self).ids_in_range() {
                        assert forall|id: usize| #[trigger] self.tank.idle.contains_id(id)
                            implies id < self.stations@.len() by {
                            if !old(self).tank.idle.contains_id(id) {
                                assert(old(self).tank.q.queue@[0] == Msg::IdleStation(id));
                            }
                        }
                        assert forall|j: int| 0 <= j < self.tank.q.queue@.len() implies ((
                        #[trigger] self.tank.q.queue@[j]) matches Msg::IdleStation(id) ==> id
                            < self.stations@.len()) by {
                            if old(self).tank.q.queue@.len() > 0 {
                                assert(self.tank.q.queue@[j] == old(self).tank.q.queue@[j + 1]);
                            }
                        }
                        assert(self.ids_in_range());
                    }
                    if !old(self).tank.q.closed && old(self).tank.q.queue@.len() == 0 {
                        assert(*self == *old(self));
                    }
                }
                if out.len() > 0 {
                    let (dest, m) = out[0];
                    match dest {
                        Dest::Mine => {
                            match self.mine.q.send(m) {
                                Ok(_) => {},
                                Err(_) => {
                                    proof {
                                        assert(self.mine.q.queue == old(self).mine.q.queue);
                                        assert(self.mine.q == old(self).mine.q);
                                        assert(self.mine == old(self).mine);
                                    }
                                    return Err(SimError::InboxClosed);
                                },
                            }
                        },
                        Dest::Station(idx) => {
                            if idx >= self.stations.len() {
                                return Err(SimError::UnknownStation);
                            }
                            let st = station_mut(&mut self.stations, idx);
                            match st.q.send(m) {
                                Ok(_) => {},
                                Err(_) => {
                                    proof {
                                        assert(self.stations@[idx as int].q.queue == old(
                                            self,
                                        ).stations@[idx as int].q.queue);
                                        assert(self.stations@[idx as int].q == old(
                                            self,
                                        ).stations@[idx as int].q);
                                        assert(self.stations@[idx as int] == old(
                                            self,
                                        ).stations@[idx as int]);
                                        assert(self.stations@ =~= old(self).stations@);
                                    }
                                    return Err(SimError::InboxClosed);
                                },
                            }
                        },
                    }
                }
                Ok(())
            },
        }
    }
}

/// Unlink every inbox's pending contents, as removing and recreating the
/// underlying queues at startup would: every inbox ends empty, and nothing
/// else — fuel levels, states, the registry, receive modes — changes.
#[verifier::loop_isolation(false)]
pub fn cleanup_posix_queues(w: &mut World)
    ensures
        final(w).mine.reservoir == old(w).mine.reservoir,
        PMQ::same_config(final(w).mine.q, old(w).mine.q),
        final(w).mine.q.queue@.len() == 0,
        final(w).tank.state == old(w).tank.state,
        final(w).tank.reservoir == old(w).tank.reservoir,
        final(w).tank.target == old(w).tank.target,
        final(w).tank.idle == old(w).tank.idle,
        PMQ::same_config(final(w).tank.q, old(w).tank.q),
        final(w).tank.q.queue@.len() == 0,
        final(w).stations@.len() == old(w).stations@.len(),
        forall|i: int|
            0 <= i < old(w).stations@.len() ==> ({
                let pre = old(w).stations@[i];
                let post = #[trigger] final(w).stations@[i];
                &&& post.idx == pre.idx
                &&& post.reservoir == pre.reservoir
                &&& post.burn_rate == pre.burn_rate
                &&& PMQ::same_config(post.q, pre.q)
                &&& post.q.queue@.len() == 0
            }),
{
    w.mine.q.clear();
    w.tank.q.clear();
    let n = w.stations.len();
    let mut i: usize = 0;
    while i < n
        invariant
            0 <= i <= n,
            n == w.stations@.len(),
            w.stations@.len() == old(w).stations@.len(),
            w.mine.reservoir == old(w).mine.reservoir,
            PMQ::same_config(w.mine.q, old(w).mine.q),
            w.mine.q.queue@.len() == 0,
            w.tank.state == old(w).tank.state,
            w.tank.reservoir == old(w).tank.reservoir,
            w.tank.target == old(w).tank.target,
            w.tank.idle == old(w).tank.idle,
            PMQ::same_config(w.tank.q, old(w).tank.q),
            w.tank.q.queue@.len() == 0,
            forall|j: int|
                0 <= j < i ==> ({
                    let pre = old(w).stations@[j];
                    let post = #[trigger] w.stations@[j];
                    &&& post.idx == pre.idx
                    &&& post.reservoir == pre.reservoir
                    &&& post.burn_rate == pre.burn_rate
                    &&& PMQ::same_config(post.q, pre.q)
                    &&& post.q.queue@.len() == 0
                }),
            forall|j: int|
                i <= j < n ==> #[trigger] w.stations@[j] == old(w).stations@[j],
        decreases n - i,
    {
        let st = station_mut(&mut w.stations, i);
        st.q.clear();
        i = i + 1;
    }
}

} // verus!
