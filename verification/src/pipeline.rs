//! The snapshot pipeline's accounting: a bounded job queue drained by a
//! fixed worker pool, with the pending and completed counts that decide
//! admission (backpressure) and the drain condition.

use vstd::prelude::*;

verus! {

/// One consistent snapshot of the pipeline's counters: jobs sitting in the
/// queue, jobs taken by a worker and still executing, and the totals ever
/// enqueued and executed. The captures themselves happen outside; these
/// counters decide when a producer may enqueue and when the pipeline counts
/// as drained.
pub struct SnapshotPipeline {
    /// The queue bound: twice the worker count.
    pub capacity: u64,
    /// Jobs enqueued and not yet taken by a worker.
    pub queued: u64,
    /// Jobs taken by a worker and not yet finished.
    pub in_flight: u64,
    /// Jobs ever enqueued.
    pub enqueued: u64,
    /// Jobs ever finished, each exactly once.
    pub executed: u64,
    /// Artifacts produced, seeded with what an earlier run left on disk.
    pub done: u64,
}

impl SnapshotPipeline {
    /// The books balance: what is queued or executing is exactly what was
    /// enqueued and not yet executed, and the queue respects its bound.
    pub open spec fn wf(self) -> bool {
        &&& self.queued + self.in_flight == self.enqueued - self.executed
        &&& self.queued <= self.capacity
    }

    /// How many jobs are enqueued and not yet fully executed. Zero queue
    /// depth alone is not completion: a job may still be executing.
    pub open spec fn pending(self) -> int {
        self.queued + self.in_flight
    }

    /// A pipeline for `num_workers` workers: the queue holds at most twice
    /// that many jobs — a small multiple that bounds memory while
    /// tolerating bursts. `initial_done` counts artifacts already present.
    pub fn new(num_workers: u64, initial_done: u64) -> (r: Self)
        requires
            num_workers <= u64::MAX / 2,
        ensures
            r.wf(),
            r.capacity == 2 * num_workers,
            r.pending() == 0,
            r.enqueued == 0,
            r.executed == 0,
            r.done == initial_done,
    {
        SnapshotPipeline {
            capacity: 2 * num_workers,
            queued: 0,
            in_flight: 0,
            enqueued: 0,
            executed: 0,
            done: initial_done,
        }
    }

    /// Whether a producer may enqueue now; while this is false the producer
    /// blocks — the system's only backpressure.
    pub fn can_put(&self) -> (r: bool)
        ensures
            r == (self.queued < self.capacity),
    {
        self.queued < self.capacity
    }

    /// A producer hands one job to the queue, having waited for room.
    pub fn put(&mut self)
        requires
            old(self).wf(),
            old(self).queued < old(self).capacity,
            old(self).enqueued < u64::MAX,
        ensures
            final(self).wf(),
            final(self).queued == old(self).queued + 1,
            final(self).enqueued == old(self).enqueued + 1,
            final(self).in_flight == old(self).in_flight,
            final(self).executed == old(self).executed,
            final(self).done == old(self).done,
            final(self).capacity == old(self).capacity,
            final(self).pending() == old(self).pending() + 1,
    {
        self.queued = self.queued + 1;
        self.enqueued = self.enqueued + 1;
    }

    /// A worker takes one queued job to execute; the job is now in flight,
    /// so the pending count does not move.
    pub fn start_job(&mut self)
        requires
            old(self).wf(),
            old(self).queued > 0,
        ensures
            final(self).wf(),
            final(self).queued == old(self).queued - 1,
            final(self).in_flight == old(self).in_flight + 1,
            final(self).enqueued == old(self).enqueued,
            final(self).executed == old(self).executed,
            final(self).done == old(self).done,
            final(self).capacity == old(self).capacity,
            final(self).pending() == old(self).pending(),
    {
        self.queued = self.queued - 1;
        self.in_flight = self.in_flight + 1;
    }

    /// A worker finished the job it took; it produced `artifacts` images
    /// (zero when the capture failed, which fails nothing else).
    pub fn finish_job(&mut self, artifacts: u64)
        requires
            old(self).wf(),
            old(self).in_flight > 0,
            old(self).done + artifacts <= u64::MAX,
        ensures
            final(self).wf(),
            final(self).in_flight == old(self).in_flight - 1,
            final(self).executed == old(self).executed + 1,
            final(self).done == old(self).done + artifacts,
            final(self).queued == old(self).queued,
            final(self).enqueued == old(self).enqueued,
            final(self).capacity == old(self).capacity,
            final(self).pending() == old(self).pending() - 1,
    {
        self.in_flight = self.in_flight - 1;
        self.executed = self.executed + 1;
        self.done = self.done + artifacts;
    }

    /// How many artifacts have been produced.
    pub fn get_done(&self) -> (r: u64)
        ensures
            r == self.done,
    {
        self.done
    }

    /// How many jobs are pending; the orchestrator waits for zero before
    /// finishing.
    pub fn get_task_count(&self) -> (r: u64)
        requires
            self.wf(),
        ensures
            r == self.pending(),
    {
        self.queued + self.in_flight
    }

    /// Whether the pipeline is drained.
    pub fn is_empty(&self) -> (r: bool)
        requires
            self.wf(),
        ensures
            r == (self.pending() == 0),
    {
        self.queued == 0 && self.in_flight == 0
    }

    /// The drain law: with balanced books, the pending count is zero
    /// exactly when every job ever enqueued has been executed — executed
    /// once each, since every execution steps `executed` by one.
    pub proof fn lemma_drained_iff_all_executed(self)
        requires
            self.wf(),
        ensures
            self.pending() == 0 <==> self.enqueued == self.executed,
    {
    }
}

} // verus!
