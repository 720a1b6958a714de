//! The chunk loader as a state machine: its states and the effect of each
//! event on them.

use vstd::prelude::*;
use crate::chunk::build_stats::BuildStats;
use crate::chunk::chunk::Chunk;
use crate::chunk::chunk_error::ChunkError;
use crate::chunk::worker::{Completion, Job};

verus! {

/// Where a chunk position stands in its life cycle.
pub enum ChunkState<T> {
    /// Nobody wants the chunk.
    Unloaded,
    /// A job for the chunk waits in the queue.
    Queued,
    /// A worker builds the chunk.
    Building,
    /// The chunk is built.
    Ready(Chunk<T>),
    /// The build failed; only a new request tries again.
    Failed(ChunkError),
}

/// A chunk state without what it carries.
#[derive(Clone, Copy, Debug, PartialEq, Eq, Structural)]
pub enum ChunkStatus {
    Unloaded,
    Queued,
    Building,
    Ready,
    Failed,
}

impl<T> ChunkState<T> {
    pub open spec fn spec_status(&self) -> ChunkStatus {
        match self {
            ChunkState::Unloaded => ChunkStatus::Unloaded,
            ChunkState::Queued => ChunkStatus::Queued,
            ChunkState::Building => ChunkStatus::Building,
            ChunkState::Ready(_) => ChunkStatus::Ready,
            ChunkState::Failed(_) => ChunkStatus::Failed,
        }
    }

    pub fn status(&self) -> (status: ChunkStatus)
        ensures
            status == self.spec_status(),
    {
        match self {
            ChunkState::Unloaded => ChunkStatus::Unloaded,
            ChunkState::Queued => ChunkStatus::Queued,
            ChunkState::Building => ChunkStatus::Building,
            ChunkState::Ready(_) => ChunkStatus::Ready,
            ChunkState::Failed(_) => ChunkStatus::Failed,
        }
    }
}

/// What the loader knows of one chunk position.
pub struct Entry<T> {
    pub state: ChunkState<T>,
    /// The level of detail of the latest request.
    pub lod: u32,
    /// Whether a job for the position is with a worker and has not reported
    /// yet.
    pub in_flight: bool,
}

/// The loader as a value: the entry of each known position, the positions
/// that wait for a worker, oldest first, and the counters.
pub struct LoaderView<T> {
    pub entries: Map<(i32, i32), Entry<T>>,
    pub queue: Seq<(i32, i32)>,
    pub stats: BuildStats,
}

impl<T> LoaderView<T> {
    /// The loader that knows no position.
    pub open spec fn empty() -> Self {
        LoaderView { entries: Map::empty(), queue: Seq::empty(), stats: BuildStats::spec_new() }
    }

    /// Where `p` stands; a position that the loader does not know is
    /// unloaded.
    pub open spec fn status_of(self, p: (i32, i32)) -> ChunkStatus {
        if self.entries.contains_key(p) {
            self.entries[p].state.spec_status()
        } else {
            ChunkStatus::Unloaded
        }
    }

    /// Whether a job for `p` is with a worker.
    pub open spec fn in_flight(self, p: (i32, i32)) -> bool {
        self.entries.contains_key(p) && self.entries[p].in_flight
    }

    /// Whether `p` waits for a worker and may be handed to one.
    pub open spec fn dispatchable(self, p: (i32, i32)) -> bool {
        &&& self.entries.contains_key(p)
        &&& self.entries[p].state is Queued
        &&& !self.entries[p].in_flight
    }

    /// Whether a result for `p` built at `lod` is what the loader waits for.
    pub open spec fn accepts(self, p: (i32, i32), lod: u32) -> bool {
        &&& self.entries.contains_key(p)
        &&& self.entries[p].in_flight
        &&& self.entries[p].state is Building
        &&& self.entries[p].lod == lod
    }

    /// What holds of every loader: a position that is being built has a job
    /// in flight, one that is ready or failed has none, an unloaded position
    /// is kept only while its job is in flight, and a position that may be
    /// handed to a worker stands in the queue.
    pub open spec fn inv(self) -> bool {
        forall|p: (i32, i32)| #[trigger]
            self.entries.contains_key(p) ==> {
                let e = self.entries[p];
                &&& (e.state is Building ==> e.in_flight)
                &&& (e.state is Ready ==> !e.in_flight)
                &&& (e.state is Failed ==> !e.in_flight)
                &&& (e.state is Unloaded ==> e.in_flight)
                &&& (e.state is Queued && !e.in_flight ==> self.queue.contains(p))
            }
    }

    /// The loader after `p` was put into the queue at `lod`.
    pub open spec fn enqueued(self, p: (i32, i32), lod: u32) -> Self {
        LoaderView {
            entries: self.entries.insert(
                p,
                Entry { state: ChunkState::Queued, lod, in_flight: self.in_flight(p) },
            ),
            queue: self.queue.push(p),
            stats: self.stats.spec_request(),
        }
    }

    /// The loader after a request for `p` at `lod`. A position that is
    /// unknown, unloaded or failed is queued. One that is queued, building or
    /// ready at the same or a finer level of detail stays as it is. For one
    /// that is queued or building at a coarser level the request replaces the
    /// level and adds no job; one that is ready at a coarser level is queued
    /// again.
    pub open spec fn requested(self, p: (i32, i32), lod: u32) -> Self {
        if !self.entries.contains_key(p) {
            self.enqueued(p, lod)
        } else {
            let e = self.entries[p];
            match e.state {
                ChunkState::Unloaded => self.enqueued(p, lod),
                ChunkState::Failed(_) => self.enqueued(p, lod),
                ChunkState::Queued => if e.lod <= lod {
                    self
                } else {
                    LoaderView {
                        entries: self.entries.insert(
                            p,
                            Entry { state: ChunkState::Queued, lod, in_flight: e.in_flight },
                        ),
                        ..self
                    }
                },
                ChunkState::Building => if e.lod <= lod {
                    self
                } else {
                    LoaderView {
                        entries: self.entries.insert(
                            p,
                            Entry { state: ChunkState::Building, lod, in_flight: e.in_flight },
                        ),
                        ..self
                    }
                },
                ChunkState::Ready(_) => if e.lod <= lod {
                    self
                } else {
                    self.enqueued(p, lod)
                },
            }
        }
    }

    /// The loader after `p` was released: the position is unloaded. A job in
    /// flight is not called back; the loader remembers it until it reports.
    pub open spec fn released(self, p: (i32, i32)) -> Self {
        if !self.entries.contains_key(p) {
            self
        } else if self.entries[p].in_flight {
            LoaderView {
                entries: self.entries.insert(
                    p,
                    Entry {
                        state: ChunkState::Unloaded,
                        lod: self.entries[p].lod,
                        in_flight: true,
                    },
                ),
                ..self
            }
        } else {
            LoaderView { entries: self.entries.remove(p), ..self }
        }
    }

    /// The loader after the next job was taken from the queue, and the job.
    /// Positions at the head of the queue that no longer wait for a worker
    /// are dropped; the first that does is handed out and is building from
    /// then on.
    pub open spec fn dispatched(self) -> (Self, Option<Job>)
        decreases self.queue.len(),
    {
        if self.queue.len() == 0 {
            (self, None)
        } else {
            let p = self.queue[0];
            let rest = LoaderView { queue: self.queue.drop_first(), ..self };
            if self.dispatchable(p) {
                (
                    LoaderView {
                        entries: self.entries.insert(
                            p,
                            Entry {
                                state: ChunkState::Building,
                                lod: self.entries[p].lod,
                                in_flight: true,
                            },
                        ),
                        queue: self.queue.drop_first(),
                        stats: self.stats.spec_dispatch(),
                    },
                    Some(Job { position: [p.0, p.1], lod: self.entries[p].lod }),
                )
            } else {
                rest.dispatched()
            }
        }
    }

    /// The loader after a worker reported on `p`. The result is taken if the
    /// position is building and was last requested at the level that was
    /// built. Every other result is dropped: for a released position the
    /// position stays unloaded, and a position that is wanted at another
    /// level, or wanted again, goes back into the queue.
    pub open spec fn completed(
        self,
        p: (i32, i32),
        lod: u32,
        result: Result<Chunk<T>, ChunkError>,
        elapsed_ms: u64,
    ) -> Self {
        if !self.in_flight(p) {
            LoaderView { stats: self.stats.spec_discard(), ..self }
        } else {
            let e = self.entries[p];
            match e.state {
                ChunkState::Building => if e.lod == lod {
                    match result {
                        Ok(chunk) => LoaderView {
                            entries: self.entries.insert(
                                p,
                                Entry { state: ChunkState::Ready(chunk), lod, in_flight: false },
                            ),
                            stats: self.stats.spec_build(elapsed_ms),
                            ..self
                        },
                        Err(err) => LoaderView {
                            entries: self.entries.insert(
                                p,
                                Entry { state: ChunkState::Failed(err), lod, in_flight: false },
                            ),
                            stats: self.stats.spec_failure(elapsed_ms),
                            ..self
                        },
                    }
                } else {
                    self.requeued(p)
                },
                ChunkState::Queued => self.requeued(p),
                ChunkState::Unloaded => LoaderView {
                    entries: self.entries.remove(p),
                    stats: self.stats.spec_discard(),
                    ..self
                },
                ChunkState::Ready(_) => self.settled(p),
                ChunkState::Failed(_) => self.settled(p),
            }
        }
    }

    /// The loader after the result for `p` was dropped and `p` went back into
    /// the queue at the level of its latest request.
    pub open spec fn requeued(self, p: (i32, i32)) -> Self {
        LoaderView {
            entries: self.entries.insert(
                p,
                Entry { state: ChunkState::Queued, lod: self.entries[p].lod, in_flight: false },
            ),
            queue: self.queue.push(p),
            stats: self.stats.spec_discard(),
        }
    }

    /// The loader after the result for `p` was dropped and `p` kept its
    /// state.
    pub open spec fn settled(self, p: (i32, i32)) -> Self {
        LoaderView {
            entries: self.entries.insert(
                p,
                Entry { state: self.entries[p].state, lod: self.entries[p].lod, in_flight: false },
            ),
            stats: self.stats.spec_discard(),
            ..self
        }
    }

    /// The loader after the reports `arrived` were handled, oldest first.
    pub open spec fn polled(self, arrived: Seq<Completion<T>>) -> Self
        decreases arrived.len(),
    {
        if arrived.len() == 0 {
            self
        } else {
            let c = arrived[0];
            self.completed((c.position[0], c.position[1]), c.lod, c.result, c.elapsed_ms).polled(
                arrived.drop_first(),
            )
        }
    }

    /// The positions whose results the loader takes when it handles the
    /// reports `arrived`, in the order of the reports.
    pub open spec fn newly_available(self, arrived: Seq<Completion<T>>) -> Seq<[i32; 2]>
        decreases arrived.len(),
    {
        if arrived.len() == 0 {
            Seq::empty()
        } else {
            let c = arrived[0];
            let p = (c.position[0], c.position[1]);
            let later = self.completed(p, c.lod, c.result, c.elapsed_ms).newly_available(
                arrived.drop_first(),
            );
            if self.accepts(p, c.lod) {
                seq![c.position] + later
            } else {
                later
            }
        }
    }
}

/// A loader that knows no position is a valid loader.
pub proof fn lemma_empty_is_valid<T>()
    ensures
        LoaderView::<T>::empty().inv(),
{
}

/// A request keeps a valid loader valid.
pub proof fn lemma_request_keeps_valid<T>(v: LoaderView<T>, p: (i32, i32), lod: u32)
    requires
        v.inv(),
    ensures
        v.requested(p, lod).inv(),
{
    let after = v.requested(p, lod);
    assert forall|q: (i32, i32)| #[trigger] after.entries.contains_key(q) implies {
        let e = after.entries[q];
        &&& (e.state is Building ==> e.in_flight)
        &&& (e.state is Ready ==> !e.in_flight)
        &&& (e.state is Failed ==> !e.in_flight)
        &&& (e.state is Unloaded ==> e.in_flight)
        &&& (e.state is Queued && !e.in_flight ==> after.queue.contains(q))
    } by {
        if q == p {
            if v.entries.contains_key(p) {
                assert(v.entries.contains_key(p));
            }
            if after.queue.len() > v.queue.len() {
                assert(after.queue[after.queue.len() - 1] == p);
            }
        } else {
            assert(v.entries.contains_key(q));
            if v.queue.contains(q) {
                let i = choose|i: int| 0 <= i < v.queue.len() && v.queue[i] == q;
                if after.queue.len() > v.queue.len() {
                    assert(after.queue[i] == q);
                }
            }
        }
    }
}

/// A release keeps a valid loader valid.
pub proof fn lemma_release_keeps_valid<T>(v: LoaderView<T>, p: (i32, i32))
    requires
        v.inv(),
    ensures
        v.released(p).inv(),
{
    let after = v.released(p);
    assert forall|q: (i32, i32)| #[trigger] after.entries.contains_key(q) implies {
        let e = after.entries[q];
        &&& (e.state is Building ==> e.in_flight)
        &&& (e.state is Ready ==> !e.in_flight)
        &&& (e.state is Failed ==> !e.in_flight)
        &&& (e.state is Unloaded ==> e.in_flight)
        &&& (e.state is Queued && !e.in_flight ==> after.queue.contains(q))
    } by {
        if q != p {
            assert(v.entries.contains_key(q));
        }
    }
}

/// Handing out a job keeps a valid loader valid.
pub proof fn lemma_dispatch_keeps_valid<T>(v: LoaderView<T>)
    requires
        v.inv(),
    ensures
        v.dispatched().0.inv(),
    decreases v.queue.len(),
{
    if v.queue.len() > 0 {
        let p = v.queue[0];
        let rest = LoaderView { queue: v.queue.drop_first(), ..v };
        let after = if v.dispatchable(p) {
            v.dispatched().0
        } else {
            rest
        };
        assert forall|q: (i32, i32)| #[trigger] after.entries.contains_key(q) implies {
            let e = after.entries[q];
            &&& (e.state is Building ==> e.in_flight)
            &&& (e.state is Ready ==> !e.in_flight)
            &&& (e.state is Failed ==> !e.in_flight)
            &&& (e.state is Unloaded ==> e.in_flight)
            &&& (e.state is Queued && !e.in_flight ==> after.queue.contains(q))
        } by {
            if q != p || !v.dispatchable(p) {
                assert(v.entries.contains_key(q));
                let e = v.entries[q];
                if e.state is Queued && !e.in_flight {
                    let i = choose|i: int| 0 <= i < v.queue.len() && v.queue[i] == q;
                    assert(i != 0);
                    assert(v.queue.drop_first()[i - 1] == q);
                }
            }
        }
        if !v.dispatchable(p) {
            lemma_dispatch_keeps_valid(rest);
        }
    }
}

/// A report from a worker keeps a valid loader valid.
pub proof fn lemma_completion_keeps_valid<T>(
    v: LoaderView<T>,
    p: (i32, i32),
    lod: u32,
    result: Result<Chunk<T>, ChunkError>,
    elapsed_ms: u64,
)
    requires
        v.inv(),
    ensures
        v.completed(p, lod, result, elapsed_ms).inv(),
{
    let after = v.completed(p, lod, result, elapsed_ms);
    assert forall|q: (i32, i32)| #[trigger] after.entries.contains_key(q) implies {
        let e = after.entries[q];
        &&& (e.state is Building ==> e.in_flight)
        &&& (e.state is Ready ==> !e.in_flight)
        &&& (e.state is Failed ==> !e.in_flight)
        &&& (e.state is Unloaded ==> e.in_flight)
        &&& (e.state is Queued && !e.in_flight ==> after.queue.contains(q))
    } by {
        if q == p {
            if v.entries.contains_key(p) {
                assert(v.entries.contains_key(p));
            }
            if after.queue.len() > v.queue.len() {
                assert(after.queue[after.queue.len() - 1] == p);
            }
        } else {
            assert(v.entries.contains_key(q));
            if v.queue.contains(q) {
                let i = choose|i: int| 0 <= i < v.queue.len() && v.queue[i] == q;
                if after.queue.len() > v.queue.len() {
                    assert(after.queue[i] == q);
                }
            }
        }
    }
}

/// Handling any number of reports keeps a valid loader valid.
pub proof fn lemma_poll_keeps_valid<T>(v: LoaderView<T>, arrived: Seq<Completion<T>>)
    requires
        v.inv(),
    ensures
        v.polled(arrived).inv(),
    decreases arrived.len(),
{
    if arrived.len() > 0 {
        let c = arrived[0];
        let p = (c.position[0], c.position[1]);
        lemma_completion_keeps_valid(v, p, c.lod, c.result, c.elapsed_ms);
        lemma_poll_keeps_valid(
            v.completed(p, c.lod, c.result, c.elapsed_ms),
            arrived.drop_first(),
        );
    }
}

/// A request that is made twice has the effect of one: the second changes
/// neither the states nor the queue nor the counters, so a position that is
/// requested twice before its build has ended gets one job.
pub proof fn lemma_request_is_idempotent<T>(v: LoaderView<T>, p: (i32, i32), lod: u32)
    ensures
        v.requested(p, lod).requested(p, lod) == v.requested(p, lod),
        v.requested(p, lod).status_of(p) != ChunkStatus::Unloaded,
        v.requested(p, lod).status_of(p) != ChunkStatus::Failed,
{
}

/// A request at the same or a coarser level of detail changes nothing of a
/// position that is queued, building or ready.
pub proof fn lemma_request_is_absorbed<T>(v: LoaderView<T>, p: (i32, i32), lod: u32)
    requires
        v.entries.contains_key(p),
        v.entries[p].lod <= lod,
        v.status_of(p) == ChunkStatus::Queued || v.status_of(p) == ChunkStatus::Building
            || v.status_of(p) == ChunkStatus::Ready,
    ensures
        v.requested(p, lod) == v,
{
}

/// The job that is handed out is for a position that waited in the queue and
/// had no job in flight; from then on the position is building, at the level
/// that the job carries, and its job is in flight.
pub proof fn lemma_dispatch_starts_building<T>(v: LoaderView<T>)
    ensures
        match v.dispatched().1 {
            Some(job) => {
                let p = (job.position[0], job.position[1]);
                &&& v.dispatchable(p)
                &&& v.queue.contains(p)
                &&& job.lod == v.entries[p].lod
                &&& v.dispatched().0.status_of(p) == ChunkStatus::Building
                &&& v.dispatched().0.in_flight(p)
                &&& v.dispatched().0.entries[p].lod == job.lod
            },
            None => v.dispatched().0.entries == v.entries && v.dispatched().0.stats == v.stats,
        },
    decreases v.queue.len(),
{
    if v.queue.len() > 0 {
        let p = v.queue[0];
        if !v.dispatchable(p) {
            let rest = LoaderView { queue: v.queue.drop_first(), ..v };
            lemma_dispatch_starts_building(rest);
            match rest.dispatched().1 {
                Some(job) => {
                    let q = (job.position[0], job.position[1]);
                    let i = choose|i: int| 0 <= i < rest.queue.len() && rest.queue[i] == q;
                    assert(v.queue[i + 1] == q);
                },
                None => {},
            }
        }
    }
}

/// While a job for a position is in flight, no second job for it is handed
/// out, whatever is requested or released in the meantime: at most one build
/// of a position runs at any time.
pub proof fn lemma_one_job_in_flight<T>(v: LoaderView<T>, p: (i32, i32), q: (i32, i32), lod: u32)
    requires
        v.in_flight(p),
    ensures
        v.dispatched().1 matches Some(job) ==> (job.position[0], job.position[1]) != p,
        v.dispatched().0.in_flight(p),
        v.requested(q, lod).in_flight(p),
        v.released(q).in_flight(p),
    decreases v.queue.len(),
{
    if v.queue.len() > 0 {
        let head = v.queue[0];
        if !v.dispatchable(head) {
            let rest = LoaderView { queue: v.queue.drop_first(), ..v };
            lemma_one_job_in_flight(rest, p, q, lod);
        }
    }
}

/// A result is taken only for a position that is building; the position is
/// then ready or failed, as the result says. A result that is not taken
/// leaves no position building and makes none ready. Either way no job for
/// the position is in flight afterwards.
pub proof fn lemma_result_ends_building<T>(
    v: LoaderView<T>,
    p: (i32, i32),
    lod: u32,
    result: Result<Chunk<T>, ChunkError>,
    elapsed_ms: u64,
)
    requires
        v.inv(),
    ensures
        v.accepts(p, lod) ==> v.status_of(p) == ChunkStatus::Building && v.completed(
            p,
            lod,
            result,
            elapsed_ms,
        ).status_of(p) == (if result.is_ok() {
            ChunkStatus::Ready
        } else {
            ChunkStatus::Failed
        }),
        !v.accepts(p, lod) ==> v.completed(p, lod, result, elapsed_ms).status_of(p)
            != ChunkStatus::Building && (v.status_of(p) != ChunkStatus::Ready ==> v.completed(
            p,
            lod,
            result,
            elapsed_ms,
        ).status_of(p) != ChunkStatus::Ready),
        !v.completed(p, lod, result, elapsed_ms).in_flight(p),
{
}

/// A result that arrives after its position was released is dropped: the
/// position is unloaded and stays so, whatever the result is.
pub proof fn lemma_late_result_is_dropped<T>(
    v: LoaderView<T>,
    p: (i32, i32),
    lod: u32,
    result: Result<Chunk<T>, ChunkError>,
    elapsed_ms: u64,
)
    ensures
        v.released(p).status_of(p) == ChunkStatus::Unloaded,
        !v.released(p).accepts(p, lod),
        v.released(p).completed(p, lod, result, elapsed_ms).status_of(p) == ChunkStatus::Unloaded,
        !v.released(p).completed(p, lod, result, elapsed_ms).entries.contains_key(p),
{
}

/// An event for one position leaves the state of every other position as it
/// is.
pub proof fn lemma_events_are_local<T>(
    v: LoaderView<T>,
    p: (i32, i32),
    other: (i32, i32),
    lod: u32,
    result: Result<Chunk<T>, ChunkError>,
    elapsed_ms: u64,
)
    requires
        p != other,
    ensures
        v.requested(p, lod).entries.contains_key(other) == v.entries.contains_key(other),
        v.released(p).entries.contains_key(other) == v.entries.contains_key(other),
        v.completed(p, lod, result, elapsed_ms).entries.contains_key(other)
            == v.entries.contains_key(other),
        v.entries.contains_key(other) ==> {
            &&& v.requested(p, lod).entries[other] == v.entries[other]
            &&& v.released(p).entries[other] == v.entries[other]
            &&& v.completed(p, lod, result, elapsed_ms).entries[other] == v.entries[other]
        },
{
}

/// A position moves through its life in one order only. A request queues a
/// position or leaves it; a release unloads it or leaves it; a job makes a
/// queued position a building one and changes no other; and a report makes a
/// building position ready, failed or queued again and changes no other.
pub proof fn lemma_life_cycle<T>(
    v: LoaderView<T>,
    p: (i32, i32),
    q: (i32, i32),
    lod: u32,
    result: Result<Chunk<T>, ChunkError>,
    elapsed_ms: u64,
)
    ensures
        v.requested(p, lod).status_of(q) == v.status_of(q) || v.requested(p, lod).status_of(q)
            == ChunkStatus::Queued,
        v.released(p).status_of(q) == v.status_of(q) || v.released(p).status_of(q)
            == ChunkStatus::Unloaded,
        v.dispatched().0.status_of(q) == v.status_of(q) || (v.status_of(q) == ChunkStatus::Queued
            && v.dispatched().0.status_of(q) == ChunkStatus::Building),
        v.completed(p, lod, result, elapsed_ms).status_of(q) == v.status_of(q) || (v.status_of(q)
            == ChunkStatus::Building && v.completed(p, lod, result, elapsed_ms).status_of(q)
            != ChunkStatus::Unloaded),
    decreases v.queue.len(),
{
    if v.queue.len() > 0 {
        let head = v.queue[0];
        if !v.dispatchable(head) {
            let rest = LoaderView { queue: v.queue.drop_first(), ..v };
            lemma_life_cycle(rest, p, q, lod, result, elapsed_ms);
        }
    }
}

} // verus!
