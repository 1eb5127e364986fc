//! One worker of the pool: an identifier, the position of its loop, and
//! whether the pool still holds the handle of its thread.
//!
//! A worker's loop has one decision in it: what to do with what the queue
//! handed over. `Worker::turn` is that decision.

use crate::queue::Received;
use vstd::prelude::*;

verus! {

/// Where a worker stands in its loop.
#[derive(Clone, Copy, Debug, PartialEq, Eq, Structural)]
pub enum WorkerState {
    /// At the queue, waiting to be handed a job.
    Waiting,
    /// Away from the queue, running the job it was handed.
    Running,
    /// Out of its loop for good: it found the queue closed and drained.
    Stopped,
}

/// What a worker has to do after a visit to the queue.
#[derive(Debug, PartialEq, Eq)]
pub enum Step<J> {
    /// Run this job to completion, outside the queue's critical section,
    /// then come back for the next.
    Run(J),
    /// Nothing to do yet: sleep until the queue changes, then ask again.
    Wait,
    /// Nothing will ever come: leave the loop and let the thread end.
    Exit,
}

impl<J> Step<J> {
    /// What a worker that is still in its loop does with `message`.
    pub open spec fn after(message: Received<J>) -> Step<J> {
        match message {
            Received::Job(job) => Step::Run(job),
            Received::Empty => Step::Wait,
            Received::Disconnected => Step::Exit,
        }
    }
}

/// What a worker is, as far as contracts are concerned.
pub struct WorkerView {
    /// Its identifier: its index in the pool.
    pub id: int,
    /// Where it stands in its loop.
    pub state: WorkerState,
    /// Whether the pool still holds the handle of its thread.
    pub attached: bool,
}

impl WorkerView {
    /// A worker as it is created: waiting, its thread handle held by the pool.
    pub open spec fn fresh(id: int) -> Self {
        WorkerView { id, state: WorkerState::Waiting, attached: true }
    }

    /// A worker is live until it has left its loop.
    pub open spec fn live(self) -> bool {
        self.state != WorkerState::Stopped
    }

    /// The worker after a visit to the queue that handed it `message`.
    pub open spec fn turned<J>(self, message: Received<J>) -> Self {
        match message {
            Received::Job(_) => WorkerView { state: WorkerState::Running, ..self },
            Received::Empty => WorkerView { state: WorkerState::Waiting, ..self },
            Received::Disconnected => WorkerView { state: WorkerState::Stopped, ..self },
        }
    }


    /// The worker after its thread was joined: the handle is released.
    pub open spec fn detached(self) -> Self {
        WorkerView { attached: false, ..self }
    }
}

/// A worker as the pool keeps it.
pub struct Worker {
    id: usize,
    state: WorkerState,
    attached: bool,
}

impl View for Worker {
    type V = WorkerView;

    closed spec fn view(&self) -> WorkerView {
        WorkerView { id: self.id as int, state: self.state, attached: self.attached }
    }
}

impl Worker {
    /// The worker with identifier `id`, about to enter its loop.
    pub fn new(id: usize) -> (worker: Worker)
        ensures
            worker@ == WorkerView::fresh(id as int),
    {
        Worker { id, state: WorkerState::Waiting, attached: true }
    }

    /// The worker's identifier.
    pub fn id(&self) -> (id: usize)
        ensures
            id == self@.id,
    {
        self.id
    }

    /// Where the worker stands in its loop.
    pub fn state(&self) -> (state: WorkerState)
        ensures
            state == self@.state,
    {
        self.state
    }

    /// Whether the pool still holds the handle of the worker's thread.
    pub fn is_attached(&self) -> (attached: bool)
        ensures
            attached == self@.attached,
    {
        self.attached
    }

    /// One turn of the worker's loop, for a worker that is still in it. A job
    /// is to be run, and the worker is `Running` until it comes back; an empty
    /// queue that is still open sends it to sleep; an empty queue whose
    /// producer side is closed ends the loop.
    pub fn turn<J>(&mut self, message: Received<J>) -> (step: Step<J>)
        requires
            old(self)@.live(),
        ensures
            step == Step::after(message),
            final(self)@ == old(self)@.turned(message),
    {
        match message {
            Received::Job(job) => {
                self.state = WorkerState::Running;
                Step::Run(job)
            },
            Received::Empty => {
                self.state = WorkerState::Waiting;
                Step::Wait
            },
            Received::Disconnected => {
                self.state = WorkerState::Stopped;
                Step::Exit
            },
        }
    }

    /// Records that the worker's thread was joined, which only a worker that
    /// has left its loop allows. Says whether it did.
    pub fn join(&mut self) -> (joined: bool)
        ensures
            joined == !old(self)@.live(),
            joined ==> final(self)@ == old(self)@.detached(),
            !joined ==> final(self)@ == old(self)@,
    {
        match self.state {
            WorkerState::Stopped => {
                self.attached = false;
                true
            },
            _ => false,
        }
    }
}

} // verus!
