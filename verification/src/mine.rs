//! The Mine: the fuel-producing actor.
//!
//! The mine accrues production each cycle, capped at its capacity. When it
//! receives a fuel request it clamps the request to what it holds and streams
//! the fuel out in chunks of a quarter of that clamped amount, closing the
//! transfer with a `TankMove` that tells the tank to proceed.

use crate::errors::SimError;
use crate::msg::Msg;
use crate::posixmq::{MqError, MINE_QUEUE, PMQ};
use crate::reservoir::{quarter, quarter_of, FuelReservoir};
use vstd::prelude::*;

verus! {

/// The default mine capacity: twice a station's.
pub const MINE_CAPACITY: u64 = 200;

/// Split `total` into chunks of `chunk`, last chunk short.
pub open spec fn chunk_split(total: int, chunk: int) -> Seq<int>
    decreases total,
{
    if total <= 0 || chunk <= 0 {
        seq![]
    } else if total <= chunk {
        seq![total]
    } else {
        seq![chunk] + chunk_split(total - chunk, chunk)
    }
}

/// The chunk amounts wrapped as fuel messages.
pub open spec fn fuel_msgs(amounts: Seq<int>) -> Seq<Msg> {
    amounts.map_values(|a: int| Msg::Fuel(a as u64))
}

/// Everything the mine sends to the tank when asked for `req` fuel while
/// holding `level`: the request clamped to the level, split into chunks of a
/// quarter of that clamped amount, then the closing `TankMove`.
///
/// The quarter is floored but never below one whole unit, so a positive
/// transfer always makes progress; the flooring means an amount under four
/// units moves in single-unit chunks (which then exceed a strict quarter of
/// it), and up to seven chunks can precede the `TankMove` instead of four.
pub open spec fn mine_stream(level: int, req: int) -> Seq<Msg> {
    let avail = if req <= level {
        req
    } else {
        level
    };
    fuel_msgs(chunk_split(avail, quarter(avail))).push(Msg::TankMove)
}

/// Every chunk of a split is positive and no larger than the chunk size.
proof fn lemma_chunk_split_bounds(total: int, chunk: int)
    requires
        chunk >= 1,
    ensures
        forall|i: int|
            0 <= i < chunk_split(total, chunk).len() ==> 0 < #[trigger] chunk_split(total, chunk)[i]
                <= chunk,
    decreases total,
{
    if total > chunk {
        lemma_chunk_split_bounds(total - chunk, chunk);
        let s = chunk_split(total, chunk);
        let rest = chunk_split(total - chunk, chunk);
        assert forall|i: int| 0 <= i < s.len() implies 0 < #[trigger] s[i] <= chunk by {
            if i > 0 {
                assert(s[i] == rest[i - 1]);
            }
        }
    }
}

/// A split needs no more than `k` chunks to carry `total` when `k` chunks
/// of the given size suffice.
proof fn lemma_chunk_split_len_le(total: int, chunk: int, k: nat)
    requires
        chunk >= 1,
        total <= k * chunk,
    ensures
        chunk_split(total, chunk).len() <= k,
    decreases k,
{
    if total > 0 {
        assert(k >= 1) by (nonlinear_arith)
            requires
                total >= 1,
                chunk >= 1,
                total <= k * chunk,
        {}
        if total > chunk {
            assert(total - chunk <= (k - 1) * chunk) by (nonlinear_arith)
                requires
                    total <= k * chunk,
                    k >= 1,
            {}
            lemma_chunk_split_len_le(total - chunk, chunk, (k - 1) as nat);
        }
    }
}

/// The shape of every mine stream: fuel chunks, each positive and at most
/// the (floored, minimum one unit) quarter of the clamped amount, then the
/// single closing `TankMove`; never more than seven chunks.
pub proof fn lemma_mine_stream_shape(level: int, req: int)
    requires
        0 <= level <= u64::MAX,
        0 <= req <= u64::MAX,
    ensures
        ({
            let avail = if req <= level {
                req
            } else {
                level
            };
            let s = mine_stream(level, req);
            &&& 1 <= s.len() <= 8
            &&& s[s.len() - 1] == Msg::TankMove
            &&& forall|i: int|
                0 <= i < s.len() - 1 ==> (#[trigger] s[i] matches Msg::Fuel(c) && 0 < c <= quarter(
                    avail,
                ))
        }),
{
    let avail = if req <= level {
        req
    } else {
        level
    };
    let q = quarter(avail);
    let cs = chunk_split(avail, q);
    let s = mine_stream(level, req);
    if avail == 0 {
        assert(cs == Seq::<int>::empty());
    } else {
        lemma_chunk_split_bounds(avail, q);
        if avail <= 7 {
            assert(avail <= 7 * q) by (nonlinear_arith)
                requires
                    q >= 1,
                    avail <= 7,
            {}
            lemma_chunk_split_len_le(avail, q, 7);
        } else {
            vstd::arithmetic::div_mod::lemma_fundamental_div_mod(avail, 4);
            assert(avail <= 7 * q) by (nonlinear_arith)
                requires
                    avail >= 8,
                    q == avail / 4,
                    avail == 4 * (avail / 4) + avail % 4,
                    0 <= avail % 4 < 4,
            {}
            lemma_chunk_split_len_le(avail, q, 7);
        }
    }
    assert forall|i: int| 0 <= i < s.len() - 1 implies (#[trigger] s[i] matches Msg::Fuel(c) && 0
        < c <= quarter(avail)) by {
        assert(s[i] == fuel_msgs(cs)[i]);
        assert(0 < cs[i] <= q);
        assert(q <= avail <= u64::MAX);
        assert(fuel_msgs(cs)[i] == Msg::Fuel(cs[i] as u64));
        assert((cs[i] as u64) as int == cs[i]);
    }
}

/// The fuel-producing actor: a buffer fed by production, drained by requests.
pub struct Mine {
    /// The fuel buffer.
    pub reservoir: FuelReservoir,
    /// The mine's own inbox; it polls it without blocking.
    pub q: PMQ,
}

impl Mine {
    /// Everything the mine promises to keep intact across a step.
    pub open spec fn wf(self) -> bool {
        self.reservoir.wf()
    }

    /// Everything a step from state `pre` sends (all of it addressed to the
    /// tank): the chunked stream for a fuel request, nothing otherwise.
    pub open spec fn step_out(pre: Mine) -> Seq<Msg> {
        if !pre.q.closed && pre.q.queue@.len() > 0 {
            match pre.q.queue@[0] {
                Msg::Fuel(req) => mine_stream(pre.reservoir.level as int, req as int),
                _ => Seq::empty(),
            }
        } else {
            Seq::empty()
        }
    }

    /// Whether a step from state `pre` fails, and how: a closed inbox is
    /// fatal, and any message kind but `Fuel` is a protocol violation.
    pub open spec fn step_err(pre: Mine) -> Option<SimError> {
        if pre.q.closed {
            Some(SimError::InboxClosed)
        } else if pre.q.queue@.len() > 0 && !(pre.q.queue@[0] matches Msg::Fuel(_)) {
            Some(SimError::UnexpectedMessage)
        } else {
            None
        }
    }

    /// How a step changes the mine itself, in every case: the inbox head is
    /// consumed, a served request drains the clamped amount, and production
    /// accrues (capped) on every successful cycle; errors and blocked polls
    /// leave the buffer as it was.
    pub open spec fn step_effect(pre: Mine, post: Mine, production: u64) -> bool {
        &&& post.reservoir.capacity == pre.reservoir.capacity
        &&& PMQ::same_config(post.q, pre.q)
        &&& pre.q.closed ==> post == pre
        &&& !pre.q.closed && pre.q.queue@.len() == 0 && !pre.q.nonblocking ==> post == pre
        &&& !pre.q.closed && pre.q.queue@.len() == 0 && pre.q.nonblocking ==> post.q == pre.q
            && post.reservoir.level == clamped_add(
            pre.reservoir.level as int,
            production as int,
            pre.reservoir.capacity as int,
        )
        &&& !pre.q.closed && pre.q.queue@.len() > 0 ==> post.q.queue@ == pre.q.queue@.drop_first()
        &&& !pre.q.closed && pre.q.queue@.len() > 0 ==> (pre.q.queue@[0] matches Msg::Fuel(req)
            ==> post.reservoir.level == clamped_add(
            pre.reservoir.level as int - (if req <= pre.reservoir.level {
                req as int
            } else {
                pre.reservoir.level as int
            }),
            production as int,
            pre.reservoir.capacity as int,
        ))
        &&& !pre.q.closed && pre.q.queue@.len() > 0 && !(pre.q.queue@[0] matches Msg::Fuel(_))
            ==> post.reservoir == pre.reservoir
    }

    /// A mine of the default capacity, empty, with a fresh non-blocking
    /// inbox.
    pub fn new() -> (r: Mine)
        ensures
            r.wf(),
            r.reservoir.capacity == MINE_CAPACITY,
            r.reservoir.level == 0,
            r.q.queue@.len() == 0,
            r.q.nonblocking,
            !r.q.closed,
    {
        Mine::with_capacity(MINE_CAPACITY)
    }

    /// A mine of the given capacity, empty, with a fresh non-blocking inbox.
    pub fn with_capacity(capacity: u64) -> (r: Mine)
        ensures
            r.wf(),
            r.reservoir.capacity == capacity,
            r.reservoir.level == 0,
            r.q.queue@.len() == 0,
            r.q.nonblocking,
            !r.q.closed,
    {
        Mine { reservoir: FuelReservoir::new(capacity), q: PMQ::open(MINE_QUEUE).nonblocking() }
    }

    /// One cycle of the mine's loop: poll the inbox, serve a fuel request
    /// by streaming chunks to the tank, then gain `production` fuel
    /// (capped at capacity).
    ///
    /// The returned messages are all addressed to the tank and are exactly
    /// [`Mine::step_out`] of the starting state; failure is exactly
    /// [`Mine::step_err`] of it. A non-`Fuel` message is a protocol
    /// violation; a closed inbox is fatal; on either error the buffer is
    /// left as it was. An empty poll in blocking mode stands for the
    /// suspended owner and changes nothing.
    #[verifier::loop_isolation(false)]
    pub fn step(&mut self, production: u64) -> (r: Result<Vec<Msg>, SimError>)
        requires
            old(self).wf(),
        ensures
            final(self).wf(),
            Self::step_effect(*old(self), *final(self), production),
            (match r {
                Ok(out) => Self::step_err(*old(self)) is None && out@ == Self::step_out(
                    *old(self),
                ),
                Err(e) => Self::step_err(*old(self)) == Some(e) && final(self).reservoir == old(
                    self,
                ).reservoir,
            }),
            // The mine only ever sends fuel and movement orders, never an
            // announcement.
            r matches Ok(out) ==> forall|j: int|
                0 <= j < out@.len() ==> !((#[trigger] out@[j]) matches Msg::IdleStation(_)),
    {
        let msg = self.q.receive();
        match msg {
            Err(MqError::Closed) => Err(SimError::InboxClosed),
            Err(MqError::Empty) => {
                if self.q.nonblocking {
                    let _ = self.reservoir.fill(production);
                }
                Ok(Vec::new())
            },
            Ok(Msg::Fuel(req)) => {
                let ghost level0 = self.reservoir.level as int;
                let avail = if req >= self.reservoir.level {
                    self.reservoir.level
                } else {
                    req
                };
                let chunk = quarter_of(avail);
                let mut out: Vec<Msg> = Vec::new();
                let mut remaining = avail;
                proof {
                    assert(out@ + fuel_msgs(chunk_split(remaining as int, chunk as int)) =~=
                    fuel_msgs(chunk_split(avail as int, chunk as int)));
                }
                while remaining > 0
                    invariant
                        PMQ::same_config(self.q, old(self).q),
                        self.q.queue@ == old(self).q.queue@.drop_first(),
                        remaining <= avail,
                        chunk == quarter(avail as int),
                        avail <= req,
                        self.reservoir.level == level0 - avail + remaining,
                        self.reservoir.capacity == old(self).reservoir.capacity,
                        self.reservoir.wf(),
                        fuel_msgs(chunk_split(avail as int, chunk as int)) == out@ + fuel_msgs(
                            chunk_split(remaining as int, chunk as int),
                        ),
                        forall|j: int|
                            0 <= j < out@.len() ==> (#[trigger] out@[j]) matches Msg::Fuel(_),
                    decreases remaining,
                {
                    proof {
                        assert(chunk >= 1);
                    }
                    let val = if remaining <= chunk {
                        remaining
                    } else {
                        chunk
                    };
                    let ghost rem0 = remaining as int;
                    let taken = self.reservoir.take(val);
                    proof {
                        assert(taken == val);
                        assert(chunk_split(rem0, chunk as int) == seq![val as int] + chunk_split(
                            rem0 - val,
                            chunk as int,
                        )) by {
                            if rem0 <= chunk {
                                assert(chunk_split(rem0, chunk as int) == seq![rem0]);
                                assert(chunk_split(rem0 - val, chunk as int) == Seq::<
                                    int,
                                >::empty());
                                assert(seq![rem0] =~= seq![val as int] + Seq::<int>::empty());
                            }
                        }
                    }
                    out.push(Msg::Fuel(val));
                    remaining = remaining - val;
                    proof {
                        assert(fuel_msgs(chunk_split(avail as int, chunk as int)) =~= out@
                            + fuel_msgs(chunk_split(remaining as int, chunk as int)));
                    }
                }
                proof {
                    assert(chunk_split(0, chunk as int) == Seq::<int>::empty());
                    assert(out@ =~= fuel_msgs(chunk_split(avail as int, chunk as int)));
                }
                out.push(Msg::TankMove);
                let _ = self.reservoir.fill(production);
                proof {
                    assert(out@ =~= mine_stream(level0, req as int));
                    assert forall|j: int| 0 <= j < out@.len() implies !((#[trigger] out@[j])
                        matches Msg::IdleStation(_)) by {
                        if j < out@.len() - 1 {
                            assert(out@[j] matches Msg::Fuel(_));
                        } else {
                            assert(out@[j] == Msg::TankMove);
                        }
                    }
                }
                Ok(out)
            },
            Ok(_) => Err(SimError::UnexpectedMessage),
        }
    }
}

/// `level + add`, capped at `cap`.
pub open spec fn clamped_add(level: int, add: int, cap: int) -> int {
    if level + add >= cap {
        cap
    } else {
        level + add
    }
}

} // verus!
