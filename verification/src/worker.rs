//! The incremental work scheduler.
//!
//! A long render is split into consecutive chunks of a caller-chosen size.
//! The worker walks the chunks in order; polling it with `fetch` yields the
//! results of the next chunk (every item of the chunk, each result produced
//! by the caller's per-item function), until every chunk is done and `fetch`
//! reports completion.  Cancellation is cooperative and chunk-granular: after
//! `cancel`, no further chunk is started, while results already handed out
//! stay handed out.  The contracts pin that no item is lost, none is
//! processed twice, and completion is only reported once nothing more will
//! ever come.
//!
//! Driving the chunks from a thread pool and streaming results through a
//! queue is the concern of the surrounding program; this type fixes the
//! schedule those threads must follow.

use core::marker::PhantomData;
use vstd::prelude::*;

verus! {

/// What one poll of the worker reports: freshly completed results, or the
/// fact that no further results will ever come.
#[derive(PartialEq, Debug)]
pub enum WorkerState<R> {
    Values(R),
    Complete,
}

/// A chunked, cancellable scheduler over a list of work items.
#[verifier::reject_recursive_types(R)]
pub struct Worker<S, R, F> where F: Fn(S) -> R {
    items: Vec<S>,
    func: F,
    chunk_size: usize,
    next: usize,
    cancelled: bool,
    results: PhantomData<R>,
}

impl<S: Copy, R, F: Fn(S) -> R> Worker<S, R, F> {
    /// The work items, in submission order.
    pub closed spec fn items_view(self) -> Seq<S> {
        self.items@
    }

    /// The per-item function.
    pub closed spec fn func_of(self) -> F {
        self.func
    }

    /// How many items one chunk holds (the last chunk may hold fewer).
    pub closed spec fn spec_chunk_size(self) -> int {
        self.chunk_size as int
    }

    /// The position of the next chunk: items before it are processed, items
    /// from it on are not.
    pub closed spec fn spec_next(self) -> int {
        self.next as int
    }

    /// Whether cancellation was signalled; a cancelled worker starts no
    /// further chunk.
    pub closed spec fn spec_cancelled(self) -> bool {
        self.cancelled
    }

    /// Chunks hold at least one item, progress never passes the end of the
    /// work list, and every work item is an acceptable argument of the
    /// per-item function.
    pub open spec fn wf(self) -> bool {
        &&& self.spec_chunk_size() >= 1
        &&& 0 <= self.spec_next() <= self.items_view().len()
        &&& forall|i: int|
            0 <= i < self.items_view().len() ==> call_requires(
                self.func_of(),
                (self.items_view()[i],),
            )
    }

    /// A worker over the given items, producing one result per item with
    /// `worker`, in chunks of `chunk_size` items.  No work happens yet: the
    /// first chunk runs at the first poll.
    pub fn new(state: Vec<S>, worker: F, chunk_size: usize) -> (r: Worker<S, R, F>)
        requires
            chunk_size >= 1,
            forall|i: int| 0 <= i < state@.len() ==> call_requires(worker, (state@[i],)),
        ensures
            r.wf(),
            r.items_view() == state@,
            r.func_of() == worker,
            r.spec_chunk_size() == chunk_size,
            r.spec_next() == 0,
            !r.spec_cancelled(),
    {
        Worker {
            items: state,
            func: worker,
            chunk_size,
            next: 0,
            cancelled: false,
            results: PhantomData,
        }
    }

    /// Poll the worker.  While chunks remain and no cancellation was
    /// signalled, this runs exactly the next chunk and hands its results
    /// back, one per item, in item order.  Once every chunk is done — or the
    /// worker was cancelled — every poll reports `Complete` and nothing is
    /// processed any more.
    pub fn fetch(&mut self) -> (r: WorkerState<Vec<R>>)
        requires
            old(self).wf(),
        ensures
            final(self).wf(),
            final(self).items_view() == old(self).items_view(),
            final(self).func_of() == old(self).func_of(),
            final(self).spec_chunk_size() == old(self).spec_chunk_size(),
            final(self).spec_cancelled() == old(self).spec_cancelled(),
            match r {
                WorkerState::Complete => {
                    &&& (old(self).spec_cancelled() || old(self).spec_next() == old(
                        self,
                    ).items_view().len())
                    &&& final(self).spec_next() == old(self).spec_next()
                },
                WorkerState::Values(vals) => {
                    &&& !old(self).spec_cancelled()
                    &&& old(self).spec_next() < old(self).items_view().len()
                    &&& final(self).spec_next() == if old(self).spec_next() + old(
                        self,
                    ).spec_chunk_size() <= old(self).items_view().len() {
                        old(self).spec_next() + old(self).spec_chunk_size()
                    } else {
                        old(self).items_view().len() as int
                    }
                    &&& vals@.len() == final(self).spec_next() - old(self).spec_next()
                    &&& forall|j: int|
                        0 <= j < vals@.len() ==> call_ensures(
                            old(self).func_of(),
                            (old(self).items_view()[old(self).spec_next() + j],),
                            #[trigger] vals@[j],
                        )
                },
            },
    {
        if self.cancelled || self.next >= self.items.len() {
            return WorkerState::Complete;
        }
        let start = self.next;
        let end = if self.items.len() - start < self.chunk_size {
            self.items.len()
        } else {
            start + self.chunk_size
        };
        let mut vals: Vec<R> = Vec::new();
        let mut j: usize = start;
        while j < end
            invariant
                start <= j <= end <= self.items@.len(),
                vals@.len() == j - start,
                forall|i: int|
                    0 <= i < self.items@.len() ==> call_requires(self.func, (self.items@[i],)),
                forall|i: int|
                    0 <= i < vals@.len() ==> call_ensures(
                        self.func,
                        (self.items@[start + i],),
                        #[trigger] vals@[i],
                    ),
            decreases end - j,
        {
            let item = self.items[j];
            let val = (self.func)(item);
            vals.push(val);
            j = j + 1;
        }
        self.next = end;
        WorkerState::Values(vals)
    }

    /// Signal cancellation.  The signal takes effect at the next chunk
    /// boundary: chunks already processed are unaffected, and no further
    /// chunk will start.
    pub fn cancel(&mut self)
        requires
            old(self).wf(),
        ensures
            final(self).wf(),
            final(self).items_view() == old(self).items_view(),
            final(self).func_of() == old(self).func_of(),
            final(self).spec_chunk_size() == old(self).spec_chunk_size(),
            final(self).spec_next() == old(self).spec_next(),
            final(self).spec_cancelled(),
    {
        self.cancelled = true;
    }

    /// Retire the worker: signal cancellation and consume it, so no further
    /// chunk can ever run.  Results of chunks that already ran stay with
    /// whoever fetched them.
    pub fn finish(self)
        requires
            self.wf(),
    {
        let mut worker = self;
        worker.cancel();
    }

    /// Law of the round trip: polling a fresh, never-cancelled worker until
    /// it reports `Complete` yields exactly one result per submitted item, in
    /// submission order — no item is lost and none is processed twice.
    pub fn run_to_completion(self) -> (results: Vec<R>)
        requires
            self.wf(),
            self.spec_next() == 0,
            !self.spec_cancelled(),
        ensures
            results@.len() == self.items_view().len(),
            forall|i: int|
                0 <= i < results@.len() ==> call_ensures(
                    self.func_of(),
                    (self.items_view()[i],),
                    #[trigger] results@[i],
                ),
    {
        let mut worker = self;
        let mut results: Vec<R> = Vec::new();
        let mut done = false;
        while !done
            invariant
                worker.wf(),
                worker.items_view() == self.items_view(),
                worker.func_of() == self.func_of(),
                !worker.spec_cancelled(),
                results@.len() == worker.spec_next(),
                done ==> worker.spec_next() == worker.items_view().len(),
                forall|i: int|
                    0 <= i < results@.len() ==> call_ensures(
                        self.func_of(),
                        (self.items_view()[i],),
                        #[trigger] results@[i],
                    ),
            decreases worker.items_view().len() - worker.spec_next() + (if done {
                0int
            } else {
                1int
            }),
        {
            match worker.fetch() {
                WorkerState::Values(mut vals) => {
                    results.append(&mut vals);
                }
                WorkerState::Complete => {
                    done = true;
                }
            }
        }
        results
    }
}

} // verus!
