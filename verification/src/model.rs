//! The pool as a state machine.
//!
//! A pool is its workers, its queue, and a ledger: every job ever submitted,
//! in submission order, each with where it stands (queued, running on some
//! worker, done on some worker). Four things can happen to a pool: a job is
//! submitted, a worker visits the queue, the producer side is closed, a
//! stopped worker's thread is joined. Each is a function from state to state
//! here, and `inv` is what holds of every state that these can reach.

use crate::queue::QueueView;
use crate::worker::{Step, WorkerState, WorkerView};
use vstd::prelude::*;

verus! {

/// Where a submitted job stands.
pub enum JobStatus {
    /// In the queue, handed to nobody yet.
    Queued,
    /// Handed to this worker, which has not come back from it.
    Running { worker: int },
    /// Run to completion by this worker.
    Done { worker: int },
}

impl JobStatus {
    /// A job's status only ever moves forward, one stage at a time, and stays
    /// with the worker it was handed to.
    pub open spec fn advances_to(self, later: JobStatus) -> bool {
        ||| later == self
        ||| self is Queued && later is Running
        ||| self matches JobStatus::Running { worker } && later == (JobStatus::Done { worker })
    }
}

/// Something that happens to a pool.
pub enum Event<J> {
    /// A job is submitted.
    Execute { job: J },
    /// The worker with this identifier visits the queue.
    Visit { id: int },
    /// The producer side of the queue is closed.
    Close,
    /// The thread of the worker with this identifier is joined.
    Join { id: int },
}

/// One job going from the queue to a worker.
pub struct Handout<J> {
    /// The worker that took it.
    pub worker: int,
    /// The job.
    pub job: J,
}

/// What a pool is, as far as contracts are concerned.
#[verifier::ext_equal]
pub struct PoolView<J> {
    /// The workers, by identifier.
    pub workers: Seq<WorkerView>,
    /// The queue they share.
    pub queue: QueueView<J>,
    /// Every job ever submitted, in submission order.
    pub submitted: Seq<J>,
    /// Where each submitted job stands; `ledger[t]` is about `submitted[t]`.
    pub ledger: Seq<JobStatus>,
}

impl<J> PoolView<J> {
    /// How many jobs have left the queue so far. The queue is first-in,
    /// first-out, so these are the jobs at positions below `started()`.
    pub open spec fn started(self) -> int {
        self.submitted.len() - self.queue.pending.len()
    }

    /// The ledger once worker `id` is back at the queue: whatever it was
    /// running is done.
    pub open spec fn settled(self, id: int) -> Seq<JobStatus> {
        Seq::new(
            self.ledger.len(),
            |t: int|
                if self.ledger[t] == (JobStatus::Running { worker: id }) {
                    JobStatus::Done { worker: id }
                } else {
                    self.ledger[t]
                },
        )
    }

    /// A new pool of `size` workers: all waiting, nothing submitted.
    pub open spec fn initial(size: nat) -> Self {
        PoolView {
            workers: Seq::new(size, |i: int| WorkerView::fresh(i)),
            queue: QueueView::fresh(),
            submitted: Seq::empty(),
            ledger: Seq::empty(),
        }
    }

    /// The pool after `job` was submitted.
    pub open spec fn execute(self, job: J) -> Self {
        PoolView {
            queue: self.queue.sent(job),
            submitted: self.submitted.push(job),
            ledger: self.ledger.push(JobStatus::Queued),
            ..self
        }
    }

    /// The pool after worker `id` visited the queue. The job it was running,
    /// if any, is done. If a job is pending it takes the oldest; otherwise it
    /// waits, or stops if the producer side is closed. A stopped worker has
    /// no business at the queue and changes nothing.
    pub open spec fn visit(self, id: int) -> Self {
        if self.workers[id].live() {
            let message = self.queue.front();
            let ledger = self.settled(id);
            PoolView {
                workers: self.workers.update(id, self.workers[id].turned(message)),
                queue: self.queue.received(),
                ledger: if message is Job {
                    ledger.update(self.started(), JobStatus::Running { worker: id })
                } else {
                    ledger
                },
                ..self
            }
        } else {
            self
        }
    }

    /// What worker `id` is told at that visit.
    pub open spec fn handed(self, id: int) -> Step<J> {
        if self.workers[id].live() {
            Step::after(self.queue.front())
        } else {
            Step::Exit
        }
    }

    /// The pool after the producer side was closed.
    pub open spec fn close(self) -> Self {
        PoolView { queue: self.queue.closed(), ..self }
    }

    /// The pool after the thread of worker `id` was joined.
    pub open spec fn join(self, id: int) -> Self {
        PoolView { workers: self.workers.update(id, self.workers[id].detached()), ..self }
    }

    /// Whether `event` can happen in this state. Jobs go in only while the
    /// producer side is open, and only a thread that has ended can be joined.
    pub open spec fn admits(self, event: Event<J>) -> bool {
        match event {
            Event::Execute { job } => self.queue.open,
            Event::Visit { id } => 0 <= id < self.workers.len(),
            Event::Close => true,
            Event::Join { id } => 0 <= id < self.workers.len() && !self.workers[id].live(),
        }
    }

    /// The pool after `event`.
    pub open spec fn after(self, event: Event<J>) -> Self {
        match event {
            Event::Execute { job } => self.execute(job),
            Event::Visit { id } => self.visit(id),
            Event::Close => self.close(),
            Event::Join { id } => self.join(id),
        }
    }

    /// Worker `id` is running the job at position `t`.
    pub open spec fn runs(self, id: int, t: int) -> bool {
        0 <= t < self.ledger.len() && self.ledger[t] == (JobStatus::Running { worker: id })
    }

    /// What the ledger's entry for the job at position `t` must agree with:
    /// the jobs still queued are exactly those that have not left the queue,
    /// a job names a worker of this pool, and a job that is running is
    /// running on a worker that is away from the queue.
    pub open spec fn job_consistent(self, t: int) -> bool {
        match self.ledger[t] {
            JobStatus::Queued => self.started() <= t,
            JobStatus::Running { worker } => {
                &&& t < self.started()
                &&& 0 <= worker < self.workers.len()
                &&& self.workers[worker].state == WorkerState::Running
            },
            JobStatus::Done { worker } => {
                &&& t < self.started()
                &&& 0 <= worker < self.workers.len()
            },
        }
    }

    /// What the pool's record of worker `i` must agree with: its identifier
    /// is its index; while it is running, the ledger has a job running on it;
    /// it has stopped only if the queue is closed and drained; and its thread
    /// was joined only if it has stopped.
    pub open spec fn worker_consistent(self, i: int) -> bool {
        let w = self.workers[i];
        &&& w.id == i
        &&& w.state == WorkerState::Running ==> exists|t: int| self.runs(i, t)
        &&& w.state == WorkerState::Stopped ==> !self.queue.open && self.queue.pending.len() == 0
        &&& !w.attached ==> w.state == WorkerState::Stopped
    }

    /// What holds of every pool.
    pub open spec fn inv(self) -> bool {
        &&& self.workers.len() > 0
        &&& self.ledger.len() == self.submitted.len()
        &&& self.queue.pending.len() <= self.submitted.len()
        &&& self.queue.pending == self.submitted.subrange(
            self.started(),
            self.submitted.len() as int,
        )
        &&& forall|t: int| 0 <= t < self.ledger.len() ==> #[trigger] self.job_consistent(t)
        &&& forall|i: int| 0 <= i < self.workers.len() ==> #[trigger] self.worker_consistent(i)
        &&& forall|i: int, s: int, t: int|
            (#[trigger] self.runs(i, s)) && (#[trigger] self.runs(i, t)) ==> s == t
    }

    /// The positions of the jobs that are running right now.
    pub open spec fn running(self) -> Set<int> {
        Set::new(|t: int| 0 <= t < self.ledger.len() && self.ledger[t] is Running)
    }

    /// Every thread has been joined: shutdown is complete.
    pub open spec fn shut_down(self) -> bool {
        forall|i: int| 0 <= i < self.workers.len() ==> !(#[trigger] self.workers[i]).attached
    }

    /// The pool that `events` leave behind, happening one after the other to
    /// a new pool of `size` workers.
    pub open spec fn run(size: nat, events: Seq<Event<J>>) -> Self
        decreases events.len(),
    {
        if events.len() == 0 {
            Self::initial(size)
        } else {
            Self::run(size, events.drop_last()).after(events.last())
        }
    }

    /// Whether `events` can happen in that order to a new pool of `size`
    /// workers: the pool has a worker, and each event is one that the pool
    /// admits when its turn comes.
    pub open spec fn possible(size: nat, events: Seq<Event<J>>) -> bool
        decreases events.len(),
    {
        if events.len() == 0 {
            size > 0
        } else {
            &&& Self::possible(size, events.drop_last())
            &&& Self::run(size, events.drop_last()).admits(events.last())
        }
    }

    /// The jobs submitted in the course of `events`, in order.
    pub open spec fn submissions(events: Seq<Event<J>>) -> Seq<J>
        decreases events.len(),
    {
        if events.len() == 0 {
            Seq::empty()
        } else {
            let earlier = Self::submissions(events.drop_last());
            match events.last() {
                Event::Execute { job } => earlier.push(job),
                _ => earlier,
            }
        }
    }

    /// The handouts in the course of `events`, in order: each time a worker's
    /// visit to the queue ended with the worker being told to run a job.
    pub open spec fn handouts(size: nat, events: Seq<Event<J>>) -> Seq<Handout<J>>
        decreases events.len(),
    {
        if events.len() == 0 {
            Seq::empty()
        } else {
            let earlier = Self::handouts(size, events.drop_last());
            match events.last() {
                Event::Visit { id } => match Self::run(size, events.drop_last()).handed(id) {
                    Step::Run(job) => earlier.push(Handout { worker: id, job }),
                    _ => earlier,
                },
                _ => earlier,
            }
        }
    }

    /// A new pool is consistent.
    pub proof fn initial_inv(size: nat)
        requires
            size > 0,
        ensures
            Self::initial(size).inv(),
    {
        let v = Self::initial(size);
        assert(v.queue.pending =~= v.submitted.subrange(v.started(), v.submitted.len() as int));
    }

    /// Submitting a job keeps the pool consistent.
    pub proof fn execute_inv(self, job: J)
        requires
            self.inv(),
            self.queue.open,
        ensures
            self.execute(job).inv(),
    {
        let v = self.execute(job);
        assert(v.started() == self.started());
        assert(v.queue.pending =~= v.submitted.subrange(v.started(), v.submitted.len() as int));
        assert forall|t: int| 0 <= t < v.ledger.len() implies #[trigger] v.job_consistent(t) by {
            if t < self.ledger.len() {
                assert(self.job_consistent(t));
            }
        }
        assert forall|i: int| 0 <= i < v.workers.len() implies #[trigger] v.worker_consistent(
            i,
        ) by {
            assert(self.worker_consistent(i));
            if self.workers[i].state == WorkerState::Running {
                let t = choose|t: int| self.runs(i, t);
                assert(v.runs(i, t));
            }
        }
        assert forall|i: int, s: int, t: int|
            (#[trigger] v.runs(i, s)) && (#[trigger] v.runs(i, t)) implies s == t by {
            assert(self.runs(i, s) && self.runs(i, t));
        }
    }

    /// A worker's visit to the queue keeps the pool consistent.
    pub proof fn visit_inv(self, id: int)
        requires
            self.inv(),
            0 <= id < self.workers.len(),
        ensures
            self.visit(id).inv(),
    {
        let v = self.visit(id);
        if self.workers[id].live() {
            let head = self.started();
            let took = self.queue.front() is Job;
            assert(self.worker_consistent(id));
            assert(v.started() == if took { head + 1 } else { head });
            assert(v.queue.pending =~= v.submitted.subrange(
                v.started(),
                v.submitted.len() as int,
            ));
            if took {
                assert(self.job_consistent(head));
            }
            assert forall|t: int| 0 <= t < v.ledger.len() implies #[trigger] v.job_consistent(
                t,
            ) by {
                assert(self.job_consistent(t));
            }
            assert forall|i: int, s: int, t: int|
                (#[trigger] v.runs(i, s)) && (#[trigger] v.runs(i, t)) implies s == t by {
                if i != id {
                    assert(self.runs(i, s) && self.runs(i, t));
                }
            }
            assert forall|i: int| 0 <= i < v.workers.len() implies #[trigger] v.worker_consistent(
                i,
            ) by {
                assert(self.worker_consistent(i));
                if i == id {
                    if took {
                        assert(v.runs(id, head));
                    }
                } else if self.workers[i].state == WorkerState::Running {
                    let t = choose|t: int| self.runs(i, t);
                    assert(self.job_consistent(t));
                    assert(v.runs(i, t));
                }
            }
        }
    }

    /// Closing the producer side keeps the pool consistent.
    pub proof fn close_inv(self)
        requires
            self.inv(),
        ensures
            self.close().inv(),
    {
        let v = self.close();
        assert forall|t: int| 0 <= t < v.ledger.len() implies #[trigger] v.job_consistent(t) by {
            assert(self.job_consistent(t));
        }
        assert forall|i: int| 0 <= i < v.workers.len() implies #[trigger] v.worker_consistent(
            i,
        ) by {
            assert(self.worker_consistent(i));
            if self.workers[i].state == WorkerState::Running {
                let t = choose|t: int| self.runs(i, t);
                assert(v.runs(i, t));
            }
        }
        assert forall|i: int, s: int, t: int|
            (#[trigger] v.runs(i, s)) && (#[trigger] v.runs(i, t)) implies s == t by {
            assert(self.runs(i, s) && self.runs(i, t));
        }
    }

    /// Joining the thread of a stopped worker keeps the pool consistent.
    pub proof fn join_inv(self, id: int)
        requires
            self.inv(),
            0 <= id < self.workers.len(),
            !self.workers[id].live(),
        ensures
            self.join(id).inv(),
    {
        let v = self.join(id);
        assert forall|t: int| 0 <= t < v.ledger.len() implies #[trigger] v.job_consistent(t) by {
            assert(self.job_consistent(t));
        }
        assert forall|i: int| 0 <= i < v.workers.len() implies #[trigger] v.worker_consistent(
            i,
        ) by {
            assert(self.worker_consistent(i));
            if self.workers[i].state == WorkerState::Running {
                let t = choose|t: int| self.runs(i, t);
                assert(v.runs(i, t));
            }
        }
        assert forall|i: int, s: int, t: int|
            (#[trigger] v.runs(i, s)) && (#[trigger] v.runs(i, t)) implies s == t by {
            assert(self.runs(i, s) && self.runs(i, t));
        }
    }

    /// Whatever happens to a consistent pool leaves it consistent.
    pub proof fn after_inv(self, event: Event<J>)
        requires
            self.inv(),
            self.admits(event),
        ensures
            self.after(event).inv(),
    {
        match event {
            Event::Execute { job } => self.execute_inv(job),
            Event::Visit { id } => self.visit_inv(id),
            Event::Close => self.close_inv(),
            Event::Join { id } => self.join_inv(id),
        }
    }

    /// Every pool that can come about is consistent.
    pub proof fn run_inv(size: nat, events: Seq<Event<J>>)
        requires
            Self::possible(size, events),
        ensures
            Self::run(size, events).inv(),
        decreases events.len(),
    {
        if events.len() == 0 {
            Self::initial_inv(size);
        } else {
            Self::run_inv(size, events.drop_last());
            Self::run(size, events.drop_last()).after_inv(events.last());
        }
    }
}

} // verus!
