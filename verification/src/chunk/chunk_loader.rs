//! The scheduler of the build pipeline: it keeps the state of every chunk
//! position, hands jobs to workers and takes their results.

use vstd::prelude::*;
use std::collections::BTreeMap;
use std::collections::VecDeque;
use crate::chunk::build_stats::BuildStats;
use crate::chunk::chunk::Chunk;
use crate::chunk::chunk_error::ChunkError;
use crate::chunk::loader_model::{
    lemma_completion_keeps_valid, lemma_dispatch_keeps_valid, lemma_release_keeps_valid,
    lemma_request_keeps_valid, ChunkState, ChunkStatus, Entry, LoaderView,
};
use crate::chunk::worker::{Completion, Job};

verus! {

/// The key under which the entry of position `p` is stored: the positions in
/// the order of their first coordinate, then of their second.
spec fn spec_key(p: (i32, i32)) -> i64 {
    (p.0 * 4294967296 + p.1 + 2147483648) as i64
}

/// Two positions with the same key are the same position.
proof fn lemma_key_is_injective(p: (i32, i32), q: (i32, i32))
    requires
        spec_key(p) == spec_key(q),
    ensures
        p == q,
{
}

fn key_of(position: &[i32; 2]) -> (key: i64)
    ensures
        key == spec_key((position[0], position[1])),
{
    let high: i64 = position[0] as i64;
    let low: i64 = position[1] as i64;
    high * 4294967296 + (low + 2147483648)
}

/// The entries by position, for entries stored by key.
spec fn by_position<T>(stored: Map<i64, Entry<T>>) -> Map<(i32, i32), Entry<T>> {
    Map::new(
        |p: (i32, i32)| stored.contains_key(spec_key(p)),
        |p: (i32, i32)| stored[spec_key(p)],
    )
}

proof fn lemma_store<T>(stored: Map<i64, Entry<T>>, p: (i32, i32), e: Entry<T>)
    ensures
        by_position(stored.insert(spec_key(p), e)) == by_position(stored).insert(p, e),
        by_position(stored.remove(spec_key(p)).insert(spec_key(p), e)) == by_position(
            stored,
        ).insert(p, e),
{
    assert forall|q: (i32, i32)| q != p implies spec_key(q) != spec_key(p) by {
        if spec_key(q) == spec_key(p) {
            lemma_key_is_injective(p, q);
        }
    }
    assert(by_position(stored.insert(spec_key(p), e)) =~= by_position(stored).insert(p, e));
    assert(stored.remove(spec_key(p)).insert(spec_key(p), e) =~= stored.insert(spec_key(p), e));
}

proof fn lemma_drop<T>(stored: Map<i64, Entry<T>>, p: (i32, i32))
    ensures
        by_position(stored.remove(spec_key(p))) == by_position(stored).remove(p),
{
    assert forall|q: (i32, i32)| q != p implies spec_key(q) != spec_key(p) by {
        if spec_key(q) == spec_key(p) {
            lemma_key_is_injective(p, q);
        }
    }
    assert(by_position(stored.remove(spec_key(p))) =~= by_position(stored).remove(p));
}

fn take_entry<T>(stored: &mut BTreeMap<i64, Entry<T>>, key: i64) -> (taken: Option<Entry<T>>)
    ensures
        final(stored)@ == old(stored)@.remove(key),
        match taken {
            Some(e) => old(stored)@.contains_key(key) && old(stored)@[key] == e,
            None => !old(stored)@.contains_key(key),
        },
{
    broadcast use vstd::std_specs::btree::group_btree_axioms;

    stored.remove(&key)
}

fn put_entry<T>(stored: &mut BTreeMap<i64, Entry<T>>, key: i64, e: Entry<T>)
    ensures
        final(stored)@ == old(stored)@.insert(key, e),
{
    broadcast use vstd::std_specs::btree::group_btree_axioms;

    stored.insert(key, e);
}

fn peek_entry<T>(stored: &BTreeMap<i64, Entry<T>>, key: i64) -> (found: Option<&Entry<T>>)
    ensures
        match found {
            Some(e) => stored@.contains_key(key) && stored@[key] == *e,
            None => !stored@.contains_key(key),
        },
{
    broadcast use vstd::std_specs::btree::group_btree_axioms;

    stored.get(&key)
}

/// The scheduler. It is the only owner of the chunk states: workers report,
/// and the loader decides what a report changes.
pub struct ChunkLoader<T> {
    entries: BTreeMap<i64, Entry<T>>,
    queue: VecDeque<(i32, i32)>,
    stats: BuildStats,
}

impl<T> ChunkLoader<T> {
    /// The loader as a value.
    pub closed spec fn view(&self) -> LoaderView<T> {
        LoaderView { entries: by_position(self.entries@), queue: self.queue@, stats: self.stats }
    }

    /// The loader is a valid loader.
    pub open spec fn wf(&self) -> bool {
        self@.inv()
    }

    /// A loader that knows no position.
    pub fn new() -> (loader: Self)
        ensures
            loader.wf(),
            loader@ == LoaderView::<T>::empty(),
    {
        let loader = ChunkLoader {
            entries: BTreeMap::new(),
            queue: VecDeque::new(),
            stats: BuildStats::new(),
        };
        assert(loader@.entries =~= Map::empty());
        loader
    }

    /// Asks for the chunk at `position` at level of detail `lod`.
    pub fn request(&mut self, position: [i32; 2], lod: u32)
        requires
            old(self).wf(),
        ensures
            final(self).wf(),
            final(self)@ == old(self)@.requested((position[0], position[1]), lod),
    {
        let p = (position[0], position[1]);
        let key = key_of(&position);
        let ghost before = self@;
        let ghost stored = self.entries@;
        proof {
            lemma_request_keeps_valid(before, p, lod);
        }
        match take_entry(&mut self.entries, key) {
            None => {
                let e = Entry { state: ChunkState::Queued, lod, in_flight: false };
                proof {
                    lemma_store(stored, p, e);
                }
                put_entry(&mut self.entries, key, e);
                self.queue.push_back(p);
                self.stats.record_request();
            },
            Some(found) => {
                let Entry { state, lod: wanted, in_flight } = found;
                match state {
                    ChunkState::Unloaded => {
                        let e = Entry { state: ChunkState::Queued, lod, in_flight };
                        proof {
                            lemma_store(stored, p, e);
                        }
                        put_entry(&mut self.entries, key, e);
                        self.queue.push_back(p);
                        self.stats.record_request();
                    },
                    ChunkState::Failed(_) => {
                        let e = Entry { state: ChunkState::Queued, lod, in_flight };
                        proof {
                            lemma_store(stored, p, e);
                        }
                        put_entry(&mut self.entries, key, e);
                        self.queue.push_back(p);
                        self.stats.record_request();
                    },
                    ChunkState::Queued => {
                        let latest = if wanted <= lod {
                            wanted
                        } else {
                            lod
                        };
                        let e = Entry { state: ChunkState::Queued, lod: latest, in_flight };
                        proof {
                            lemma_store(stored, p, e);
                            if wanted <= lod {
                                assert(by_position(stored).insert(p, e) =~= by_position(stored));
                            }
                        }
                        put_entry(&mut self.entries, key, e);
                    },
                    ChunkState::Building => {
                        let latest = if wanted <= lod {
                            wanted
                        } else {
                            lod
                        };
                        let e = Entry { state: ChunkState::Building, lod: latest, in_flight };
                        proof {
                            lemma_store(stored, p, e);
                            if wanted <= lod {
                                assert(by_position(stored).insert(p, e) =~= by_position(stored));
                            }
                        }
                        put_entry(&mut self.entries, key, e);
                    },
                    ChunkState::Ready(chunk) => {
                        if wanted <= lod {
                            let e = Entry {
                                state: ChunkState::Ready(chunk),
                                lod: wanted,
                                in_flight,
                            };
                            proof {
                                lemma_store(stored, p, e);
                                assert(by_position(stored).insert(p, e) =~= by_position(stored));
                            }
                            put_entry(&mut self.entries, key, e);
                        } else {
                            let e = Entry { state: ChunkState::Queued, lod, in_flight };
                            proof {
                                lemma_store(stored, p, e);
                            }
                            put_entry(&mut self.entries, key, e);
                            self.queue.push_back(p);
                            self.stats.record_request();
                        }
                    },
                }
            },
        }
    }

    /// Gives the chunk at `position` up. A build that is running for it is
    /// not stopped; its result is dropped when it arrives.
    pub fn release(&mut self, position: [i32; 2])
        requires
            old(self).wf(),
        ensures
            final(self).wf(),
            final(self)@ == old(self)@.released((position[0], position[1])),
    {
        let p = (position[0], position[1]);
        let key = key_of(&position);
        let ghost before = self@;
        let ghost stored = self.entries@;
        proof {
            lemma_release_keeps_valid(before, p);
            lemma_drop(stored, p);
        }
        match take_entry(&mut self.entries, key) {
            None => {
                assert(stored.remove(key) =~= stored);
            },
            Some(found) => {
                if found.in_flight {
                    let e = Entry { state: ChunkState::Unloaded, lod: found.lod, in_flight: true };
                    proof {
                        lemma_store(stored, p, e);
                    }
                    put_entry(&mut self.entries, key, e);
                }
            },
        }
    }

    /// Takes the next job from the queue, if a position waits there.
    pub fn next_job(&mut self) -> (job: Option<Job>)
        requires
            old(self).wf(),
        ensures
            final(self).wf(),
            final(self)@ == old(self)@.dispatched().0,
            job == old(self)@.dispatched().1,
    {
        proof {
            lemma_dispatch_keeps_valid(self@);
        }
        loop
            invariant
                self@.dispatched() == old(self)@.dispatched(),
                old(self)@.dispatched().0.inv(),
            decreases self.queue@.len(),
        {
            let ghost before = self@;
            let ghost stored = self.entries@;
            match self.queue.pop_front() {
                None => {
                    return None;
                },
                Some(p) => {
                    assert(self.queue@ =~= before.queue.drop_first());
                    let position = [p.0, p.1];
                    let key = key_of(&position);
                    let waits = match peek_entry(&self.entries, key) {
                        Some(e) => e.state.status() == ChunkStatus::Queued && !e.in_flight,
                        None => false,
                    };
                    assert(waits == before.dispatchable(p));
                    if waits {
                        let found = take_entry(&mut self.entries, key);
                        let lod = match found {
                            Some(e) => e.lod,
                            None => 0,
                        };
                        let e = Entry { state: ChunkState::Building, lod, in_flight: true };
                        proof {
                            lemma_store(stored, p, e);
                        }
                        put_entry(&mut self.entries, key, e);
                        self.stats.record_dispatch();
                        let job = Job { position, lod };
                        assert(job.position =~= [p.0, p.1]);
                        return Some(job);
                    }
                },
            }
        }
    }

    /// Handles one report of a worker and says whether its result was taken.
    pub fn complete(&mut self, done: Completion<T>) -> (taken: bool)
        requires
            old(self).wf(),
        ensures
            final(self).wf(),
            final(self)@ == old(self)@.completed(
                (done.position[0], done.position[1]),
                done.lod,
                done.result,
                done.elapsed_ms,
            ),
            taken == old(self)@.accepts((done.position[0], done.position[1]), done.lod),
    {
        let Completion { position, lod, result, elapsed_ms } = done;
        let p = (position[0], position[1]);
        let key = key_of(&position);
        let ghost before = self@;
        let ghost stored = self.entries@;
        proof {
            lemma_completion_keeps_valid(before, p, lod, result, elapsed_ms);
            lemma_drop(stored, p);
        }
        match take_entry(&mut self.entries, key) {
            None => {
                assert(stored.remove(key) =~= stored);
                self.stats.record_discard();
                false
            },
            Some(found) => {
                let Entry { state, lod: wanted, in_flight } = found;
                if !in_flight {
                    let e = Entry { state, lod: wanted, in_flight };
                    proof {
                        lemma_store(stored, p, e);
                        assert(by_position(stored).insert(p, e) =~= by_position(stored));
                    }
                    put_entry(&mut self.entries, key, e);
                    self.stats.record_discard();
                    false
                } else {
                    match state {
                        ChunkState::Building => {
                            if wanted == lod {
                                match result {
                                    Ok(chunk) => {
                                        let e = Entry {
                                            state: ChunkState::Ready(chunk),
                                            lod,
                                            in_flight: false,
                                        };
                                        proof {
                                            lemma_store(stored, p, e);
                                        }
                                        put_entry(&mut self.entries, key, e);
                                        self.stats.record_build(elapsed_ms);
                                    },
                                    Err(err) => {
                                        let e = Entry {
                                            state: ChunkState::Failed(err),
                                            lod,
                                            in_flight: false,
                                        };
                                        proof {
                                            lemma_store(stored, p, e);
                                        }
                                        put_entry(&mut self.entries, key, e);
                                        self.stats.record_failure(elapsed_ms);
                                    },
                                }
                                true
                            } else {
                                let e = Entry {
                                    state: ChunkState::Queued,
                                    lod: wanted,
                                    in_flight: false,
                                };
                                proof {
                                    lemma_store(stored, p, e);
                                }
                                put_entry(&mut self.entries, key, e);
                                self.queue.push_back(p);
                                self.stats.record_discard();
                                false
                            }
                        },
                        ChunkState::Queued => {
                            let e = Entry {
                                state: ChunkState::Queued,
                                lod: wanted,
                                in_flight: false,
                            };
                            proof {
                                lemma_store(stored, p, e);
                            }
                            put_entry(&mut self.entries, key, e);
                            self.queue.push_back(p);
                            self.stats.record_discard();
                            false
                        },
                        ChunkState::Unloaded => {
                            self.stats.record_discard();
                            false
                        },
                        ChunkState::Ready(chunk) => {
                            let e = Entry {
                                state: ChunkState::Ready(chunk),
                                lod: wanted,
                                in_flight: false,
                            };
                            proof {
                                lemma_store(stored, p, e);
                            }
                            put_entry(&mut self.entries, key, e);
                            self.stats.record_discard();
                            false
                        },
                        ChunkState::Failed(err) => {
                            let e = Entry {
                                state: ChunkState::Failed(err),
                                lod: wanted,
                                in_flight: false,
                            };
                            proof {
                                lemma_store(stored, p, e);
                            }
                            put_entry(&mut self.entries, key, e);
                            self.stats.record_discard();
                            false
                        },
                    }
                }
            },
        }
    }

    /// Handles the reports in `arrived`, oldest first, and empties it. The
    /// positions whose results were taken come back in the order of their
    /// reports: their chunks and errors are in the loader from then on.
    pub fn poll_completed(&mut self, arrived: &mut VecDeque<Completion<T>>) -> (available: Vec<
        [i32; 2],
    >)
        requires
            old(self).wf(),
        ensures
            final(self).wf(),
            final(arrived)@.len() == 0,
            final(self)@ == old(self)@.polled(old(arrived)@),
            available@ == old(self)@.newly_available(old(arrived)@),
    {
        let mut available: Vec<[i32; 2]> = Vec::new();
        loop
            invariant
                self.wf(),
                self@.polled(arrived@) == old(self)@.polled(old(arrived)@),
                available@ + self@.newly_available(arrived@) == old(self)@.newly_available(
                    old(arrived)@,
                ),
            decreases arrived@.len(),
        {
            let ghost before = self@;
            let ghost waiting = arrived@;
            let ghost taken_before = available@;
            match arrived.pop_front() {
                None => {
                    assert(available@ + Seq::<[i32; 2]>::empty() =~= available@);
                    return available;
                },
                Some(done) => {
                    assert(arrived@ =~= waiting.drop_first());
                    let position = done.position;
                    let taken = self.complete(done);
                    if taken {
                        available.push(position);
                        assert(available@ + self@.newly_available(arrived@) =~= taken_before + (
                        seq![position] + self@.newly_available(arrived@)));
                    }
                },
            }
        }
    }

    /// The counters as they stand.
    pub fn stats(&self) -> (stats: BuildStats)
        ensures
            stats == self@.stats,
    {
        self.stats
    }

    /// Where `position` stands.
    pub fn status(&self, position: [i32; 2]) -> (status: ChunkStatus)
        ensures
            status == self@.status_of((position[0], position[1])),
    {
        let key = key_of(&position);
        match peek_entry(&self.entries, key) {
            Some(e) => e.state.status(),
            None => ChunkStatus::Unloaded,
        }
    }

    /// The chunk at `position`, if it is ready.
    pub fn get_chunk(&self, position: [i32; 2]) -> (chunk: Option<&Chunk<T>>)
        ensures
            match chunk {
                Some(c) => {
                    &&& self@.entries.contains_key((position[0], position[1]))
                    &&& self@.entries[(position[0], position[1])].state == ChunkState::Ready(*c)
                },
                None => self@.status_of((position[0], position[1])) != ChunkStatus::Ready,
            },
    {
        let key = key_of(&position);
        match peek_entry(&self.entries, key) {
            Some(e) => match &e.state {
                ChunkState::Ready(chunk) => Some(chunk),
                _ => None,
            },
            None => None,
        }
    }

    /// The error of the build at `position`, if it failed.
    pub fn get_error(&self, position: [i32; 2]) -> (error: Option<&ChunkError>)
        ensures
            match error {
                Some(err) => {
                    &&& self@.entries.contains_key((position[0], position[1]))
                    &&& self@.entries[(position[0], position[1])].state == ChunkState::<
                        T,
                    >::Failed(*err)
                },
                None => self@.status_of((position[0], position[1])) != ChunkStatus::Failed,
            },
    {
        let key = key_of(&position);
        match peek_entry(&self.entries, key) {
            Some(e) => match &e.state {
                ChunkState::Failed(err) => Some(err),
                _ => None,
            },
            None => None,
        }
    }

    /// The number of positions in the queue, those included that no longer
    /// wait for a worker.
    pub fn queue_len(&self) -> (len: usize)
        ensures
            len == self@.queue.len(),
    {
        self.queue.len()
    }
}

} // verus!
