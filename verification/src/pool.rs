//! The pool: a fixed set of workers around one queue.
//!
//! `ThreadPool` is the pool's whole state and every decision taken on it. It
//! starts no thread and runs no job itself: whoever owns the threads keeps one
//! `ThreadPool` behind a lock, has each worker thread call `next_job` with its
//! identifier and do what it is told, and on teardown calls `close` and then
//! joins the threads in the order that `next_to_join` gives.

use crate::model::{JobStatus, PoolView};
use crate::queue::JobQueue;
use crate::worker::{Step, Worker, WorkerState, WorkerView};
use vstd::prelude::*;

verus! {

/// A pool of workers that share one queue of jobs of type `J`.
pub struct ThreadPool<J> {
    workers: Vec<Worker>,
    queue: JobQueue<J>,
    submitted: Ghost<Seq<J>>,
    ledger: Ghost<Seq<JobStatus>>,
}

impl<J> View for ThreadPool<J> {
    type V = PoolView<J>;

    closed spec fn view(&self) -> PoolView<J> {
        PoolView {
            workers: self.workers@.map_values(|w: Worker| w@),
            queue: self.queue@,
            submitted: self.submitted@,
            ledger: self.ledger@,
        }
    }
}

impl<J> ThreadPool<J> {
    /// Well-formedness: the pool's state is one that `PoolView::inv` admits.
    pub open spec fn wf(&self) -> bool {
        self@.inv()
    }

    /// A pool of `size` workers, numbered from 0 in the order they were made,
    /// all waiting at an empty, open queue. There is no pool without workers.
    pub fn new(size: usize) -> (pool: Self)
        requires
            size > 0,
        ensures
            pool.wf(),
            pool@ == PoolView::<J>::initial(size as nat),
            pool@.workers.len() == size,
            forall|i: int|
                0 <= i < size ==> {
                    let w = #[trigger] pool@.workers[i];
                    w.id == i && w.live() && w.attached
                },
    {
        let mut workers: Vec<Worker> = Vec::new();
        for id in 0..size
            invariant
                workers@.len() == id,
                forall|i: int| 0 <= i < id ==> #[trigger] workers@[i]@ == WorkerView::fresh(i),
        {
            workers.push(Worker::new(id));
        }
        let pool = ThreadPool {
            workers,
            queue: JobQueue::new(),
            submitted: Ghost(Seq::empty()),
            ledger: Ghost(Seq::empty()),
        };
        proof {
            assert(pool@.workers =~= PoolView::<J>::initial(size as nat).workers);
            PoolView::<J>::initial_inv(size as nat);
        }
        pool
    }

    /// How many workers the pool has. It never changes.
    pub fn size(&self) -> (size: usize)
        ensures
            size == self@.workers.len(),
    {
        self.workers.len()
    }

    /// Whether jobs can still be submitted: whether the producer side of the
    /// queue is open.
    pub fn is_open(&self) -> (open: bool)
        ensures
            open == self@.queue.open,
    {
        self.queue.is_open()
    }

    /// Where worker `id` stands in its loop.
    pub fn worker_state(&self, id: usize) -> (state: WorkerState)
        requires
            id < self@.workers.len(),
        ensures
            state == self@.workers[id as int].state,
    {
        self.workers[id].state()
    }

    /// Submits `job`: it goes to the back of the queue, to be run by
    /// whichever worker gets to it. Never waits for a worker. A pool whose
    /// producer side is closed takes no jobs.
    pub fn execute(&mut self, job: J)
        requires
            old(self).wf(),
            old(self)@.queue.open,
        ensures
            final(self).wf(),
            final(self)@ == old(self)@.execute(job),
    {
        let ghost submitted = self.submitted@.push(job);
        let sent = self.queue.send(job);
        assert(sent is Ok);
        self.submitted = Ghost(submitted);
        self.ledger = Ghost(self.ledger@.push(JobStatus::Queued));
        proof {
            old(self)@.execute_inv(job);
        }
    }

    /// Worker `id` is at the queue and asks what to do. Whatever it was
    /// running is done. It is handed the oldest pending job if there is one;
    /// told to wait if there is none but the producer side is open; told to
    /// exit, and counted as stopped from then on, if there is none and the
    /// producer side is closed.
    pub fn next_job(&mut self, id: usize) -> (step: Step<J>)
        requires
            old(self).wf(),
            id < old(self)@.workers.len(),
        ensures
            final(self).wf(),
            final(self)@ == old(self)@.visit(id as int),
            step == old(self)@.handed(id as int),
    {
        match self.workers[id].state() {
            WorkerState::Stopped => Step::Exit,
            _ => {
                let message = self.queue.recv();
                let step = self.workers[id].turn(message);
                self.ledger = Ghost(old(self)@.visit(id as int).ledger);
                proof {
                    assert(self@.workers =~= old(self)@.visit(id as int).workers);
                    old(self)@.visit_inv(id as int);
                }
                step
            },
        }
    }

    /// Closes the producer side of the queue. This is the whole shutdown
    /// signal: jobs already queued are still handed out, and each worker
    /// stops when it next finds the queue empty.
    pub fn close(&mut self)
        requires
            old(self).wf(),
        ensures
            final(self).wf(),
            final(self)@ == old(self)@.close(),
    {
        self.queue.close();
        proof {
            old(self)@.close_inv();
        }
    }

    /// The worker whose thread is to be joined next: the one with the lowest
    /// identifier among those whose thread has not been joined. `None` once
    /// every thread has been joined.
    pub fn next_to_join(&self) -> (next: Option<usize>)
        ensures
            match next {
                Some(id) => {
                    &&& id < self@.workers.len()
                    &&& self@.workers[id as int].attached
                    &&& forall|i: int| 0 <= i < id ==> !(#[trigger] self@.workers[i]).attached
                },
                None => self@.shut_down(),
            },
    {
        let mut id: usize = 0;
        while id < self.workers.len()
            invariant
                id <= self.workers.len(),
                forall|i: int| 0 <= i < id ==> !(#[trigger] self@.workers[i]).attached,
            decreases self.workers.len() - id,
        {
            if self.workers[id].is_attached() {
                return Some(id);
            }
            id += 1;
        }
        None
    }

    /// Records that the thread of worker `id` was joined. A thread can be
    /// joined only once it has ended, so this takes effect only for a worker
    /// that has stopped; the result says whether it did.
    pub fn join(&mut self, id: usize) -> (joined: bool)
        requires
            old(self).wf(),
            id < old(self)@.workers.len(),
        ensures
            final(self).wf(),
            joined == !old(self)@.workers[id as int].live(),
            joined ==> final(self)@ == old(self)@.join(id as int),
            !joined ==> final(self)@ == old(self)@,
    {
        let joined = self.workers[id].join();
        proof {
            if joined {
                assert(self@.workers =~= old(self)@.join(id as int).workers);
                old(self)@.join_inv(id as int);
            } else {
                assert(self@.workers =~= old(self)@.workers);
            }
        }
        joined
    }
}

} // verus!
