//! A bounded fuel store and the shared fuel arithmetic.
//!
//! All reservoir arithmetic clamps to `[0, capacity]`: additions beyond the
//! capacity return the overflow to the caller, and drains below zero are
//! floored at zero. No operation here can fail.

use vstd::prelude::*;

verus! {

/// A quarter of `x`, floored, but never less than one portion for a positive
/// `x`. Transfers move in chunks of this size so that a positive request
/// always makes progress.
pub open spec fn quarter(x: int) -> int {
    if x >= 4 {
        x / 4
    } else if x >= 1 {
        1
    } else {
        0
    }
}

/// Executable form of [`quarter`].
pub fn quarter_of(x: u64) -> (r: u64)
    ensures
        r == quarter(x as int),
{
    if x >= 4 {
        x / 4
    } else if x >= 1 {
        1
    } else {
        0
    }
}

/// A fuel store whose level never leaves `[0, capacity]`.
pub struct FuelReservoir {
    pub level: u64,
    pub capacity: u64,
}

impl FuelReservoir {
    /// The bound every operation preserves: the level never exceeds the
    /// capacity (and both are non-negative by type).
    pub open spec fn wf(self) -> bool {
        self.level <= self.capacity
    }

    /// An empty reservoir of the given capacity.
    pub fn new(capacity: u64) -> (r: FuelReservoir)
        ensures
            r.wf(),
            r.capacity == capacity,
            r.level == 0,
    {
        FuelReservoir { level: 0, capacity }
    }

    /// A reservoir that already holds `level` fuel.
    pub fn with_level(capacity: u64, level: u64) -> (r: FuelReservoir)
        requires
            level <= capacity,
        ensures
            r.wf(),
            r.capacity == capacity,
            r.level == level,
    {
        FuelReservoir { level, capacity }
    }

    /// How much more fuel fits before the capacity is reached.
    pub fn room(&self) -> (r: u64)
        requires
            self.wf(),
        ensures
            r == self.capacity - self.level,
    {
        self.capacity - self.level
    }

    /// Add `amount`, clamped to the capacity; the part that did not fit is
    /// returned to the caller.
    pub fn fill(&mut self, amount: u64) -> (overflow: u64)
        requires
            old(self).wf(),
        ensures
            final(self).wf(),
            final(self).capacity == old(self).capacity,
            final(self).level + overflow == old(self).level + amount,
            final(self).level == if old(self).level + amount >= old(self).capacity {
                old(self).capacity
            } else {
                (old(self).level + amount) as u64
            },
    {
        let room = self.capacity - self.level;
        if amount >= room {
            self.level = self.capacity;
            amount - room
        } else {
            self.level = self.level + amount;
            0
        }
    }

    /// Remove `amount`, floored at zero; over-drain is silently clamped.
    pub fn drain(&mut self, amount: u64)
        requires
            old(self).wf(),
        ensures
            final(self).wf(),
            final(self).capacity == old(self).capacity,
            final(self).level == if amount >= old(self).level {
                0u64
            } else {
                (old(self).level - amount) as u64
            },
    {
        if amount >= self.level {
            self.level = 0;
        } else {
            self.level = self.level - amount;
        }
    }

    /// Remove and return as much of `amount` as the reservoir holds.
    pub fn take(&mut self, amount: u64) -> (taken: u64)
        requires
            old(self).wf(),
        ensures
            final(self).wf(),
            final(self).capacity == old(self).capacity,
            taken == if amount >= old(self).level {
                old(self).level
            } else {
                amount
            },
            final(self).level == old(self).level - taken,
    {
        if amount >= self.level {
            let taken = self.level;
            self.level = 0;
            taken
        } else {
            self.level = self.level - amount;
            amount
        }
    }
}

} // verus!
