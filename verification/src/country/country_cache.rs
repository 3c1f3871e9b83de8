//! The process-wide country cache: a map from tile position to either a
//! generating marker or the finished tile content. Entries are inserted
//! once and never evicted; a chunk that asks for a tile that is still
//! generating retries on a later tick.

use vstd::prelude::*;

use crate::country::country_data::{CountryData, CountryPosition};

verus! {

/// The lifecycle state of one cached tile.
pub enum GenerationState {
    Generating,
    Ready(CountryData),
}

/// What a cache lookup found: the tile's content is ready, a generation
/// task is already under way, or a new generation task must be dispatched.
#[derive(Copy, Clone, Debug, PartialEq, Eq, Structural)]
pub enum CountryLookup {
    Ready,
    Generating,
    Queued,
}

/// The country cache. Keys are unique.
pub struct CountryCache {
    entries: Vec<(CountryPosition, GenerationState)>,
}

impl CountryCache {
    /// The cached entries, in insertion order.
    pub closed spec fn entries(&self) -> Seq<(CountryPosition, GenerationState)> {
        self.entries@
    }

    /// No tile position occurs twice.
    pub open spec fn wf(&self) -> bool {
        forall|m: int, n: int|
            0 <= m < n < self.entries().len() ==> (#[trigger] self.entries()[m]).0 != (
            #[trigger] self.entries()[n]).0
    }

    /// Some entry holds `pos`.
    pub open spec fn has(&self, pos: CountryPosition) -> bool {
        exists|n: int| 0 <= n < self.entries().len() && (#[trigger] self.entries()[n]).0 == pos
    }

    /// Some entry holds `pos` and is still generating.
    pub open spec fn is_generating(&self, pos: CountryPosition) -> bool {
        exists|n: int|
            0 <= n < self.entries().len() && (#[trigger] self.entries()[n]).0 == pos
                && self.entries()[n].1 is Generating
    }

    /// Some entry holds `pos` with finished content.
    pub open spec fn is_ready(&self, pos: CountryPosition) -> bool {
        exists|n: int|
            0 <= n < self.entries().len() && (#[trigger] self.entries()[n]).0 == pos
                && self.entries()[n].1 is Ready
    }

    /// An empty cache.
    pub fn new() -> (r: CountryCache)
        ensures
            r.wf(),
            r.entries().len() == 0,
    {
        CountryCache { entries: Vec::new() }
    }

    fn find(&self, pos: CountryPosition) -> (r: Option<usize>)
        ensures
            match r {
                Option::Some(n) => n < self.entries().len() && self.entries()[n as int].0 == pos,
                Option::None => !self.has(pos),
            },
    {
        let mut n: usize = 0;
        while n < self.entries.len()
            invariant
                n <= self.entries@.len(),
                forall|m: int| 0 <= m < n ==> (#[trigger] self.entries@[m]).0 != pos,
            decreases self.entries@.len() - n,
        {
            if self.entries[n].0 == pos {
                return Some(n);
            }
            n = n + 1;
        }
        None
    }

    /// Look the tile at `pos` up. When it is absent, a generating marker is
    /// inserted and the caller must dispatch a generation task; otherwise
    /// the cache is left alone and the result names the tile's state.
    pub fn get_or_queue(&mut self, pos: CountryPosition) -> (r: CountryLookup)
        requires
            old(self).wf(),
        ensures
            final(self).wf(),
            r == CountryLookup::Queued <==> !old(self).has(pos),
            r == CountryLookup::Queued ==> final(self).entries() == old(self).entries().push(
                (pos, GenerationState::Generating),
            ),
            r != CountryLookup::Queued ==> final(self).entries() == old(self).entries(),
            r == CountryLookup::Ready <==> old(self).is_ready(pos),
            r == CountryLookup::Generating <==> old(self).is_generating(pos),
            final(self).has(pos),
    {
        let found = self.find(pos);
        match found {
            Some(n) => {
                match &self.entries[n].1 {
                    GenerationState::Ready(_) => {
                        proof {
                            assert(self.is_ready(pos));
                            if self.is_generating(pos) {
                                let m = choose|m: int|
                                    0 <= m < self.entries().len() && (#[trigger] self.entries()[m]).0
                                        == pos && self.entries()[m].1 is Generating;
                                assert(m != n);
                                assert(false);
                            }
                        }
                        CountryLookup::Ready
                    },
                    GenerationState::Generating => {
                        proof {
                            assert(self.is_generating(pos));
                            if self.is_ready(pos) {
                                let m = choose|m: int|
                                    0 <= m < self.entries().len() && (#[trigger] self.entries()[m]).0
                                        == pos && self.entries()[m].1 is Ready;
                                assert(m != n);
                                assert(false);
                            }
                        }
                        CountryLookup::Generating
                    },
                }
            },
            None => {
                let ghost old_entries = self.entries@;
                self.entries.push((pos, GenerationState::Generating));
                proof {
                    assert forall|m: int, n2: int|
                        0 <= m < n2 < self.entries().len() implies (#[trigger] self.entries()[m]).0
                        != (#[trigger] self.entries()[n2]).0 by {
                        if n2 < old_entries.len() {
                            assert(self.entries()[m] == old(self).entries()[m]);
                            assert(self.entries()[n2] == old(self).entries()[n2]);
                            assert((old(self).entries()[m]).0 != (old(self).entries()[n2]).0);
                        } else {
                            assert(self.entries()[m] == old_entries[m]);
                            assert(self.entries()[n2].0 == pos);
                            if old_entries[m].0 == pos {
                                assert((old(self).entries()[m]).0 == pos);
                                assert(old(self).has(pos));
                                assert(false);
                            }
                        }
                    }
                    assert(self.entries()[self.entries().len() - 1].0 == pos);
                }
                CountryLookup::Queued
            },
        }
    }

    /// Deposit the finished content of the tile at `pos`; its entry turns
    /// from generating to ready.
    pub fn publish(&mut self, pos: CountryPosition, data: CountryData)
        requires
            old(self).wf(),
            old(self).is_generating(pos),
        ensures
            final(self).wf(),
            final(self).is_ready(pos),
            final(self).entries().len() == old(self).entries().len(),
            forall|n: int|
                0 <= n < final(self).entries().len() ==> (#[trigger] final(self).entries()[n]).0
                    == old(self).entries()[n].0,
            forall|n: int|
                0 <= n < final(self).entries().len() && old(self).entries()[n].0 != pos
                    ==> final(self).entries()[n] == old(self).entries()[n],
            exists|n: int|
                0 <= n < final(self).entries().len() && (#[trigger] final(self).entries()[n]).0
                    == pos && final(self).entries()[n].1 == GenerationState::Ready(data),
    {
        let found = self.find(pos);
        match found {
            Some(n) => {
                let ghost old_entries = self.entries@;
                self.entries.set(n, (pos, GenerationState::Ready(data)));
                proof {
                    assert(self.entries()[n as int].0 == pos);
                    assert(self.entries()[n as int].1 is Ready);
                }
            },
            None => {
                proof {
                    assert(false);
                }
            },
        }
    }

    /// The finished content of the tile at `pos`, when it is ready.
    pub fn get(&self, pos: CountryPosition) -> (r: Option<&CountryData>)
        requires
            self.wf(),
        ensures
            match r {
                Option::Some(cd) => exists|n: int|
                    0 <= n < self.entries().len() && (#[trigger] self.entries()[n]).0 == pos
                        && self.entries()[n].1 == GenerationState::Ready(*cd),
                Option::None => !self.is_ready(pos),
            },
    {
        let found = self.find(pos);
        match found {
            Some(n) => {
                match &self.entries[n].1 {
                    GenerationState::Ready(cd) => {
                        proof {
                            assert(self.entries()[n as int].1 == GenerationState::Ready(*cd));
                        }
                        Some(cd)
                    },
                    GenerationState::Generating => {
                        proof {
                            if self.is_ready(pos) {
                                let m = choose|m: int|
                                    0 <= m < self.entries().len() && (#[trigger] self.entries()[m]).0
                                        == pos && self.entries()[m].1 is Ready;
                                assert(m != n);
                                assert(false);
                            }
                        }
                        None
                    },
                }
            },
            None => {
                proof {
                    if self.is_ready(pos) {
                        let m = choose|m: int|
                            0 <= m < self.entries().len() && (#[trigger] self.entries()[m]).0 == pos
                                && self.entries()[m].1 is Ready;
                        assert(self.has(pos));
                        assert(false);
                    }
                }
                None
            },
        }
    }
}

} // verus!
