//! The idle registry: which stations have announced that they ran dry, each
//! with a priority score.
//!
//! A fresh announcement (re)sets the station's score to the default; every
//! chunk the tank supplies to a station lowers its score by one, so stations
//! serviced often lose priority (fairness decay). Selection picks the highest
//! score and breaks ties deterministically towards the lowest station id.

use vstd::prelude::*;

verus! {

/// The score a station gets when it announces idleness.
pub const DEFAULT_SCORE: u32 = 100;

/// The set of idle stations, each with its priority score.
pub struct IdleRegistry {
    /// The entries, one per registered station id, in no particular order.
    pub entries: Vec<(usize, u32)>,
}

impl IdleRegistry {
    /// No station id appears twice.
    pub open spec fn wf(self) -> bool {
        forall|i: int, j: int|
            0 <= i < j < self.entries@.len() ==> (#[trigger] self.entries@[i]).0 != (
            #[trigger] self.entries@[j]).0
    }

    /// Is `id` registered?
    pub open spec fn contains_id(self, id: usize) -> bool {
        exists|i: int| 0 <= i < self.entries@.len() && (#[trigger] self.entries@[i]).0 == id
    }

    /// The position of `id` among the entries.
    pub open spec fn index_of(self, id: usize) -> int {
        choose|i: int| 0 <= i < self.entries@.len() && (#[trigger] self.entries@[i]).0 == id
    }

    /// The score registered for `id`.
    pub open spec fn score_of(self, id: usize) -> u32
        recommends
            self.contains_id(id),
    {
        self.entries@[self.index_of(id)].1
    }

    /// In a well-formed registry the entry found at `j` is the entry of its
    /// id.
    pub proof fn lemma_at_index(self, id: usize, j: int)
        requires
            self.wf(),
            0 <= j < self.entries@.len(),
            self.entries@[j].0 == id,
        ensures
            self.contains_id(id),
            self.index_of(id) == j,
            self.score_of(id) == self.entries@[j].1,
    {
        assert(self.contains_id(id));
        let i = self.index_of(id);
        assert(0 <= i < self.entries@.len() && self.entries@[i].0 == id);
        if i != j {
            if i < j {
                assert(self.entries@[i].0 != self.entries@[j].0);
            } else {
                assert(self.entries@[j].0 != self.entries@[i].0);
            }
        }
    }

    /// An empty registry.
    pub fn new() -> (r: IdleRegistry)
        ensures
            r.wf(),
            r.entries@.len() == 0,
            forall|k: usize| !r.contains_id(k),
    {
        IdleRegistry { entries: Vec::new() }
    }

    /// How many stations are registered.
    pub fn len(&self) -> (r: usize)
        ensures
            r == self.entries@.len(),
    {
        self.entries.len()
    }

    /// The score of `id`, if it is registered.
    #[verifier::loop_isolation(false)]
    pub fn score(&self, id: usize) -> (r: Option<u32>)
        requires
            self.wf(),
        ensures
            self.contains_id(id) ==> r == Some(self.score_of(id)),
            !self.contains_id(id) ==> r == None::<u32>,
    {
        let n = self.entries.len();
        let mut i: usize = 0;
        while i < n
            invariant
                0 <= i <= n,
                n == self.entries@.len(),
                self.wf(),
                forall|j: int| 0 <= j < i ==> (#[trigger] self.entries@[j]).0 != id,
            decreases n - i,
        {
            if self.entries[i].0 == id {
                proof {
                    self.lemma_at_index(id, i as int);
                }
                return Some(self.entries[i].1);
            }
            i = i + 1;
        }
        proof {
            assert(!self.contains_id(id));
        }
        None
    }

    /// Register `id` with the given score, or refresh its score if it is
    /// already registered. Every other entry is untouched.
    #[verifier::loop_isolation(false)]
    pub fn insert(&mut self, id: usize, score: u32)
        requires
            old(self).wf(),
        ensures
            final(self).wf(),
            final(self).contains_id(id),
            final(self).score_of(id) == score,
            forall|k: usize|
                k != id ==> (#[trigger] final(self).contains_id(k) <==> old(self).contains_id(k)),
            forall|k: usize|
                k != id && old(self).contains_id(k) ==> #[trigger] final(self).score_of(k) == old(
                    self,
                ).score_of(k),
    {
        let n = self.entries.len();
        let mut i: usize = 0;
        while i < n
            invariant
                0 <= i <= n,
                *self == *old(self),
                n == self.entries@.len(),
                forall|j: int| 0 <= j < i ==> (#[trigger] self.entries@[j]).0 != id,
            decreases n - i,
        {
            if self.entries[i].0 == id {
                self.entries.set(i, (id, score));
                proof {
                    let pre = *old(self);
                    let post = *self;
                    assert(post.entries@ == pre.entries@.update(i as int, (id, score)));
                    assert forall|m: int| 0 <= m < post.entries@.len() implies (
                    #[trigger] post.entries@[m]).0 == pre.entries@[m].0 by {}
                    assert(self.wf());
                    self.lemma_at_index(id, i as int);
                    assert forall|k: usize| k != id implies (#[trigger] self.contains_id(k) <==> old(
                        self,
                    ).contains_id(k)) by {
                        if old(self).contains_id(k) {
                            let j = old(self).index_of(k);
                            assert(post.entries@[j].0 == k);
                        }
                        if self.contains_id(k) {
                            let j = self.index_of(k);
                            assert(pre.entries@[j].0 == k);
                        }
                    }
                    assert forall|k: usize| k != id && old(self).contains_id(k) implies #[trigger] self.score_of(
                        k,
                    ) == old(self).score_of(k) by {
                        let j = old(self).index_of(k);
                        assert(pre.entries@[j].0 == k);
                        assert(j != i);
                        old(self).lemma_at_index(k, j);
                        self.lemma_at_index(k, j);
                    }
                }
                return ;
            }
            i = i + 1;
        }
        self.entries.push((id, score));
        proof {
            let pre = *old(self);
            let post = *self;
            let len = pre.entries@.len() as int;
            assert(post.entries@ == pre.entries@.push((id, score)));
            assert forall|m: int, m2: int|
                0 <= m < m2 < post.entries@.len() implies (#[trigger] post.entries@[m]).0 != (
            #[trigger] post.entries@[m2]).0 by {
                if m2 < len {
                    assert(pre.entries@[m].0 != pre.entries@[m2].0);
                } else {
                    assert(post.entries@[m2] == (id, score));
                    assert(pre.entries@[m].0 != id);
                }
            }
            self.lemma_at_index(id, len);
            assert forall|k: usize| k != id implies (#[trigger] self.contains_id(k) <==> old(
                self,
            ).contains_id(k)) by {
                if old(self).contains_id(k) {
                    let j = old(self).index_of(k);
                    assert(post.entries@[j].0 == k);
                }
                if self.contains_id(k) {
                    let j = self.index_of(k);
                    assert(0 <= j < post.entries@.len() && post.entries@[j].0 == k);
                    assert(j != len);
                    assert(pre.entries@[j].0 == k);
                }
            }
            assert forall|k: usize| k != id && old(self).contains_id(k) implies #[trigger] self.score_of(
                k,
            ) == old(self).score_of(k) by {
                let j = old(self).index_of(k);
                assert(pre.entries@[j].0 == k);
                old(self).lemma_at_index(k, j);
                self.lemma_at_index(k, j);
            }
        }
    }

    /// Strike `id` from the registry, if present. Every other entry keeps
    /// its score.
    #[verifier::loop_isolation(false)]
    pub fn remove(&mut self, id: usize)
        requires
            old(self).wf(),
        ensures
            final(self).wf(),
            !final(self).contains_id(id),
            forall|k: usize|
                k != id ==> (#[trigger] final(self).contains_id(k) <==> old(self).contains_id(k)),
            forall|k: usize|
                k != id && old(self).contains_id(k) ==> #[trigger] final(self).score_of(k) == old(
                    self,
                ).score_of(k),
    {
        let n = self.entries.len();
        let mut i: usize = 0;
        while i < n
            invariant
                0 <= i <= n,
                *self == *old(self),
                n == self.entries@.len(),
                forall|j: int| 0 <= j < i ==> (#[trigger] self.entries@[j]).0 != id,
            decreases n - i,
        {
            if self.entries[i].0 == id {
                self.entries.remove(i);
                proof {
                    let pre = *old(self);
                    let post = *self;
                    assert(post.entries@ == pre.entries@.remove(i as int));
                    assert forall|m: int|
                        0 <= m < post.entries@.len() implies (#[trigger] post.entries@[m]) == (
                    if m < i {
                        pre.entries@[m]
                    } else {
                        pre.entries@[m + 1]
                    }) by {}
                    assert(self.wf()) by {
                        assert forall|m: int, m2: int|
                            0 <= m < m2 < post.entries@.len() implies (
                        #[trigger] post.entries@[m]).0 != (#[trigger] post.entries@[m2]).0 by {
                            let sm: int = if m < i {
                                m
                            } else {
                                m + 1
                            };
                            let sm2: int = if m2 < i {
                                m2
                            } else {
                                m2 + 1
                            };
                            assert(pre.entries@[sm].0 != pre.entries@[sm2].0);
                        }
                    }
                    assert(!self.contains_id(id)) by {
                        assert forall|j: int|
                            0 <= j < post.entries@.len() implies (#[trigger] post.entries@[j]).0
                            != id by {
                            let sj: int = if j < i {
                                j
                            } else {
                                j + 1
                            };
                            if sj != i {
                                assert(pre.entries@[sj].0 != pre.entries@[i as int].0);
                            }
                        }
                    }
                    assert forall|k: usize| k != id implies (#[trigger] self.contains_id(k) <==> old(
                        self,
                    ).contains_id(k)) by {
                        if old(self).contains_id(k) {
                            let j = old(self).index_of(k);
                            assert(pre.entries@[j].0 == k);
                            assert(j != i);
                            if j < i {
                                assert(post.entries@[j].0 == k);
                            } else {
                                assert(post.entries@[j - 1].0 == k);
                            }
                        }
                        if self.contains_id(k) {
                            let j = self.index_of(k);
                            let sj: int = if j < i {
                                j
                            } else {
                                j + 1
                            };
                            assert(pre.entries@[sj].0 == k);
                        }
                    }
                    assert forall|k: usize| k != id && old(self).contains_id(k) implies #[trigger] self.score_of(
                        k,
                    ) == old(self).score_of(k) by {
                        let j = old(self).index_of(k);
                        assert(pre.entries@[j].0 == k);
                        old(self).lemma_at_index(k, j);
                        assert(j != i);
                        if j < i {
                            assert(post.entries@[j] == pre.entries@[j]);
                            self.lemma_at_index(k, j);
                        } else {
                            assert(post.entries@[j - 1] == pre.entries@[j]);
                            self.lemma_at_index(k, j - 1);
                        }
                    }
                }
                return ;
            }
            i = i + 1;
        }
        proof {
            assert(!self.contains_id(id));
        }
    }

    /// Lower the score of `id` by one, stopping at zero; stations not
    /// registered are left alone.
    #[verifier::loop_isolation(false)]
    pub fn decrement(&mut self, id: usize)
        requires
            old(self).wf(),
        ensures
            final(self).wf(),
            forall|k: usize|
                (#[trigger] final(self).contains_id(k) <==> old(self).contains_id(k)),
            old(self).contains_id(id) ==> final(self).score_of(id) == (if old(self).score_of(id)
                > 0 {
                (old(self).score_of(id) - 1) as u32
            } else {
                0u32
            }),
            forall|k: usize|
                k != id && old(self).contains_id(k) ==> #[trigger] final(self).score_of(k) == old(
                    self,
                ).score_of(k),
    {
        let n = self.entries.len();
        let mut i: usize = 0;
        while i < n
            invariant
                0 <= i <= n,
                *self == *old(self),
                n == self.entries@.len(),
                forall|j: int| 0 <= j < i ==> (#[trigger] self.entries@[j]).0 != id,
            decreases n - i,
        {
            if self.entries[i].0 == id {
                let s = self.entries[i].1;
                let lowered: u32 = if s > 0 {
                    s - 1
                } else {
                    0
                };
                self.entries.set(i, (id, lowered));
                proof {
                    let pre = *old(self);
                    let post = *self;
                    assert(post.entries@ == pre.entries@.update(i as int, (id, lowered)));
                    assert forall|m: int| 0 <= m < post.entries@.len() implies (
                    #[trigger] post.entries@[m]).0 == pre.entries@[m].0 by {}
                    assert(self.wf());
                    old(self).lemma_at_index(id, i as int);
                    self.lemma_at_index(id, i as int);
                    assert forall|k: usize| #[trigger] self.contains_id(k) <==> old(
                        self,
                    ).contains_id(k) by {
                        if old(self).contains_id(k) {
                            let j = old(self).index_of(k);
                            assert(post.entries@[j].0 == k);
                        }
                        if self.contains_id(k) {
                            let j = self.index_of(k);
                            assert(pre.entries@[j].0 == k);
                        }
                    }
                    assert forall|k: usize| k != id && old(self).contains_id(k) implies #[trigger] self.score_of(
                        k,
                    ) == old(self).score_of(k) by {
                        let j = old(self).index_of(k);
                        assert(pre.entries@[j].0 == k);
                        assert(j != i);
                        old(self).lemma_at_index(k, j);
                        self.lemma_at_index(k, j);
                    }
                }
                return ;
            }
            i = i + 1;
        }
        proof {
            assert(!self.contains_id(id));
        }
    }

    /// Pick the station to service next: the registered id with the highest
    /// score; equal scores go to the lowest id. `None` exactly when the
    /// registry is empty.
    #[verifier::loop_isolation(false)]
    pub fn select(&self) -> (r: Option<usize>)
        requires
            self.wf(),
        ensures
            r == None::<usize> <==> self.entries@.len() == 0,
            r matches Some(id) ==> self.contains_id(id) && forall|k: usize|
                #[trigger] self.contains_id(k) ==> self.score_of(k) < self.score_of(id) || (
                self.score_of(k) == self.score_of(id) && id <= k),
    {
        let n = self.entries.len();
        if n == 0 {
            return None;
        }
        let mut best_id: usize = self.entries[0].0;
        let mut best_score: u32 = self.entries[0].1;
        let mut i: usize = 1;
        while i < n
            invariant
                1 <= i <= n,
                n == self.entries@.len(),
                self.wf(),
                exists|j: int|
                    0 <= j < i && (#[trigger] self.entries@[j]) == (best_id, best_score),
                forall|j: int|
                    0 <= j < i ==> (#[trigger] self.entries@[j]).1 < best_score || (
                    self.entries@[j].1 == best_score && best_id <= self.entries@[j].0),
            decreases n - i,
        {
            let (cand_id, cand_score) = self.entries[i];
            if cand_score > best_score || (cand_score == best_score && cand_id < best_id) {
                best_id = cand_id;
                best_score = cand_score;
                proof {
                    assert(self.entries@[i as int] == (best_id, best_score));
                }
            }
            i = i + 1;
        }
        proof {
            let j = choose|j: int|
                0 <= j < n && (#[trigger] self.entries@[j]) == (best_id, best_score);
            self.lemma_at_index(best_id, j);
            assert forall|k: usize| #[trigger] self.contains_id(k) implies self.score_of(k)
                < self.score_of(best_id) || (self.score_of(k) == self.score_of(best_id) && best_id
                <= k) by {
                let m = self.index_of(k);
                assert(self.entries@[m].0 == k);
                self.lemma_at_index(k, m);
            }
        }
        Some(best_id)
    }
}

} // verus!
