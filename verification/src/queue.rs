//! The job queue: an unbounded first-in, first-out channel with one producer
//! side that can be closed, once and for good.
//!
//! Closing is the only shutdown signal there is. A receiver that finds the
//! queue empty learns from the same call whether more jobs may still come
//! (`Empty`) or never will (`Disconnected`); jobs that were sent before the
//! producer side closed are still handed out, in the order they were sent.

use std::collections::VecDeque;
use vstd::prelude::*;

verus! {

/// What a queue is, as far as contracts are concerned.
#[verifier::ext_equal]
pub struct QueueView<J> {
    /// The jobs sent and not yet received, oldest first.
    pub pending: Seq<J>,
    /// Whether the producer side is still there.
    pub open: bool,
}

/// The outcome of one attempt to receive.
#[derive(Debug, PartialEq, Eq)]
pub enum Received<J> {
    /// The oldest pending job, now owned by the receiver.
    Job(J),
    /// Nothing is pending, but the producer side is open: more may come.
    Empty,
    /// Nothing is pending and the producer side is closed: nothing will come.
    Disconnected,
}

impl<J> QueueView<J> {
    /// A fresh channel: nothing pending, producer side open.
    pub open spec fn fresh() -> Self {
        QueueView { pending: Seq::empty(), open: true }
    }

    /// The queue after `job` went in at the back.
    pub open spec fn sent(self, job: J) -> Self {
        QueueView { pending: self.pending.push(job), ..self }
    }

    /// What an attempt to receive hands out in this state.
    pub open spec fn front(self) -> Received<J> {
        if self.pending.len() > 0 {
            Received::Job(self.pending[0])
        } else if self.open {
            Received::Empty
        } else {
            Received::Disconnected
        }
    }

    /// The queue after an attempt to receive: the oldest job, if any, is gone.
    pub open spec fn received(self) -> Self {
        if self.pending.len() > 0 {
            QueueView { pending: self.pending.subrange(1, self.pending.len() as int), ..self }
        } else {
            self
        }
    }

    /// The queue after the producer side went away. What is pending stays.
    pub open spec fn closed(self) -> Self {
        QueueView { open: false, ..self }
    }
}

/// The queue itself. `J` is the type of a job; the queue never looks inside one.
pub struct JobQueue<J> {
    jobs: VecDeque<J>,
    open: bool,
}

impl<J> View for JobQueue<J> {
    type V = QueueView<J>;

    closed spec fn view(&self) -> QueueView<J> {
        QueueView { pending: self.jobs@, open: self.open }
    }
}

impl<J> JobQueue<J> {
    /// An empty queue with its producer side open.
    pub fn new() -> (queue: Self)
        ensures
            queue@ == QueueView::<J>::fresh(),
    {
        JobQueue { jobs: VecDeque::new(), open: true }
    }

    /// Puts `job` at the back of the queue. Once the producer side is closed
    /// nothing can be sent: the job comes back in `Err` and the queue is
    /// untouched.
    pub fn send(&mut self, job: J) -> (result: Result<(), J>)
        ensures
            old(self)@.open ==> result == Ok::<(), J>(()) && final(self)@ == old(self)@.sent(job),
            !old(self)@.open ==> result == Err::<(), J>(job) && final(self)@ == old(self)@,
    {
        if self.open {
            self.jobs.push_back(job);
            Ok(())
        } else {
            Err(job)
        }
    }

    /// Takes the oldest pending job, or says why there is none. Never waits:
    /// on `Empty` it is the caller who goes to sleep until something is sent
    /// or the producer side closes.
    pub fn recv(&mut self) -> (message: Received<J>)
        ensures
            message == old(self)@.front(),
            final(self)@ == old(self)@.received(),
    {
        match self.jobs.pop_front() {
            Some(job) => Received::Job(job),
            None => {
                if self.open {
                    Received::Empty
                } else {
                    Received::Disconnected
                }
            },
        }
    }

    /// Closes the producer side. Closing twice is closing once.
    pub fn close(&mut self)
        ensures
            final(self)@ == old(self)@.closed(),
    {
        self.open = false;
    }

    /// Whether the producer side is still open.
    pub fn is_open(&self) -> (open: bool)
        ensures
            open == self@.open,
    {
        self.open
    }

    /// How many jobs are pending.
    pub fn len(&self) -> (len: usize)
        ensures
            len == self@.pending.len(),
    {
        self.jobs.len()
    }
}

} // verus!
