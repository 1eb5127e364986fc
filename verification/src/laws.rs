//! What holds of every pool, proved from the state machine in `model`.

use crate::model::{Event, JobStatus, PoolView};
use crate::worker::{Step, WorkerState};
use vstd::prelude::*;
use vstd::relations::injective_on;
use vstd::set_lib::{lemma_int_range, lemma_len_subset, lemma_map_size, set_int_range};

verus! {

/// Jobs are handed out once each, in the order they were submitted, and none
/// is lost. Take any course of events that can happen to a new pool. The
/// pool's record of submitted jobs is the jobs that were submitted, in order.
/// The jobs handed to workers so far are the first of these, in the same
/// order, one handout per job, and the ledger names for each the worker that
/// took it. The rest are those in the queue, in the same order.
pub proof fn jobs_are_handed_out_once_in_order<J>(size: nat, events: Seq<Event<J>>)
    requires
        PoolView::<J>::possible(size, events),
    ensures
        ({
            let pool = PoolView::<J>::run(size, events);
            let given = PoolView::<J>::handouts(size, events);
            &&& pool.submitted == PoolView::<J>::submissions(events)
            &&& given.len() == pool.started()
            &&& given.len() + pool.queue.pending.len() == pool.submitted.len()
            &&& forall|t: int|
                0 <= t < given.len() ==> {
                    &&& (#[trigger] given[t]).job == pool.submitted[t]
                    &&& pool.ledger[t] == (JobStatus::Running { worker: given[t].worker })
                        || pool.ledger[t] == (JobStatus::Done { worker: given[t].worker })
                }
            &&& forall|k: int|
                0 <= k < pool.queue.pending.len() ==> #[trigger] pool.queue.pending[k]
                    == pool.submitted[given.len() + k]
        }),
    decreases events.len(),
{
    let pool = PoolView::<J>::run(size, events);
    let given = PoolView::<J>::handouts(size, events);
    PoolView::<J>::run_inv(size, events);
    if events.len() > 0 {
        let before = PoolView::<J>::run(size, events.drop_last());
        let earlier = PoolView::<J>::handouts(size, events.drop_last());
        jobs_are_handed_out_once_in_order(size, events.drop_last());
        PoolView::<J>::run_inv(size, events.drop_last());
        match events.last() {
            Event::Visit { id } => {
                if before.workers[id].live() {
                    assert forall|t: int| 0 <= t < given.len() implies {
                        &&& (#[trigger] given[t]).job == pool.submitted[t]
                        &&& pool.ledger[t] == (JobStatus::Running { worker: given[t].worker })
                            || pool.ledger[t] == (JobStatus::Done { worker: given[t].worker })
                    } by {
                        if t < earlier.len() {
                            assert(earlier[t].job == before.submitted[t]);
                            assert(before.job_consistent(t));
                        }
                    }
                }
            },
            _ => {},
        }
    }
}

/// Nothing that happens to a pool takes a job out of its record, hands a job
/// out a second time, or moves a job from one worker to another: a job's
/// status only moves forward, from queued to running on some worker to done
/// on that same worker.
pub proof fn job_status_only_advances<J>(pool: PoolView<J>, event: Event<J>, t: int)
    requires
        pool.inv(),
        pool.admits(event),
        0 <= t < pool.submitted.len(),
    ensures
        t < pool.after(event).submitted.len(),
        pool.after(event).submitted[t] == pool.submitted[t],
        pool.ledger[t].advances_to(pool.after(event).ledger[t]),
{
    match event {
        Event::Visit { id } => {
            assert(pool.job_consistent(t));
            if pool.queue.pending.len() > 0 {
                assert(pool.job_consistent(pool.started()));
            }
        },
        _ => {},
    }
}

/// A pool only winds down. Whatever happens, it keeps its workers and each
/// keeps its identifier; a producer side once closed stays closed; a worker
/// that has stopped stays stopped; a thread once joined stays joined.
pub proof fn pool_only_winds_down<J>(pool: PoolView<J>, event: Event<J>, i: int)
    requires
        pool.inv(),
        pool.admits(event),
        0 <= i < pool.workers.len(),
    ensures
        pool.after(event).workers.len() == pool.workers.len(),
        pool.after(event).workers[i].id == pool.workers[i].id,
        !pool.queue.open ==> !pool.after(event).queue.open,
        !pool.workers[i].live() ==> !pool.after(event).workers[i].live(),
        !pool.workers[i].attached ==> !pool.after(event).workers[i].attached,
{
    assert(pool.worker_consistent(i));
}

/// A pool has the workers it was made with, all its life: whatever happens
/// to a new pool of `size` workers, it has `size` workers afterwards.
pub proof fn workers_are_those_made<J>(size: nat, events: Seq<Event<J>>)
    requires
        PoolView::<J>::possible(size, events),
    ensures
        PoolView::<J>::run(size, events).workers.len() == size,
    decreases events.len(),
{
    if events.len() > 0 {
        workers_are_those_made(size, events.drop_last());
    }
}

/// No worker leaves while the pool is open: as long as the producer side is
/// open every worker is live, and a worker that visits the queue is handed a
/// job or told to wait, never told to exit.
pub proof fn workers_stay_while_pool_is_open<J>(pool: PoolView<J>, id: int)
    requires
        pool.inv(),
        pool.queue.open,
        0 <= id < pool.workers.len(),
    ensures
        pool.workers[id].live(),
        pool.workers[id].attached,
        !(pool.handed(id) is Exit),
        pool.visit(id).workers[id].live(),
{
    assert(pool.worker_consistent(id));
}

/// Closing the producer side reaches every worker: once it is closed, no
/// worker is told to wait. A live worker that visits the queue takes a job,
/// and the queue is one job shorter, or it finds none, is told to exit, and
/// has stopped.
pub proof fn closed_pool_keeps_no_worker_waiting<J>(pool: PoolView<J>, id: int)
    requires
        pool.inv(),
        !pool.queue.open,
        0 <= id < pool.workers.len(),
        pool.workers[id].live(),
    ensures
        !(pool.handed(id) is Wait),
        pool.handed(id) is Run ==> pool.visit(id).queue.pending.len() + 1
            == pool.queue.pending.len(),
        pool.handed(id) is Exit ==> pool.queue.pending.len() == 0 && !pool.visit(
            id,
        ).workers[id].live(),
{
}

/// A worker runs one job at a time: two jobs that are running at the same
/// moment are running on different workers.
pub proof fn worker_runs_one_job_at_a_time<J>(pool: PoolView<J>, s: int, t: int)
    requires
        pool.inv(),
        0 <= s < pool.submitted.len(),
        0 <= t < pool.submitted.len(),
        s != t,
        pool.ledger[s] is Running,
        pool.ledger[t] is Running,
    ensures
        pool.ledger[s]->Running_worker != pool.ledger[t]->Running_worker,
{
    let i = pool.ledger[s]->Running_worker;
    if i == pool.ledger[t]->Running_worker {
        assert(pool.runs(i, s) && pool.runs(i, t));
    }
}

/// A worker that is away from the queue is running a job, and a job that is
/// running is running on a worker that is away from the queue.
pub proof fn running_workers_and_running_jobs_match<J>(pool: PoolView<J>)
    requires
        pool.inv(),
    ensures
        forall|i: int|
            0 <= i < pool.workers.len() && (#[trigger] pool.workers[i]).state
                == WorkerState::Running ==> exists|t: int| pool.runs(i, t),
        forall|t: int|
            0 <= t < pool.ledger.len() && (#[trigger] pool.ledger[t]) is Running ==> {
                let i = pool.ledger[t]->Running_worker;
                0 <= i < pool.workers.len() && pool.workers[i].state == WorkerState::Running
            },
{
    assert forall|i: int|
        0 <= i < pool.workers.len() && (#[trigger] pool.workers[i]).state
            == WorkerState::Running implies exists|t: int| pool.runs(i, t) by {
        assert(pool.worker_consistent(i));
    }
    assert forall|t: int|
        0 <= t < pool.ledger.len() && (#[trigger] pool.ledger[t]) is Running implies {
        let i = pool.ledger[t]->Running_worker;
        0 <= i < pool.workers.len() && pool.workers[i].state == WorkerState::Running
    } by {
        assert(pool.job_consistent(t));
    }
}

/// A worker that is running a job keeps nobody from the queue. Whatever the
/// other workers are doing, a live worker that visits a queue with a job in
/// it is handed the oldest job and runs it; the other workers, and the jobs
/// they are running, are as they were.
pub proof fn running_worker_holds_up_nobody<J>(pool: PoolView<J>, id: int, other: int)
    requires
        pool.inv(),
        0 <= id < pool.workers.len(),
        0 <= other < pool.workers.len(),
        other != id,
        pool.workers[id].live(),
        pool.queue.pending.len() > 0,
    ensures
        pool.handed(id) == Step::Run(pool.queue.pending[0]),
        pool.visit(id).workers[id].state == WorkerState::Running,
        pool.visit(id).runs(id, pool.started()),
        pool.visit(id).workers[other] == pool.workers[other],
        forall|t: int| pool.runs(other, t) ==> #[trigger] pool.visit(id).runs(other, t),
{
    assert(pool.job_consistent(pool.started()));
}

/// At no moment are more jobs running than the pool has workers.
pub proof fn running_jobs_fit_the_pool<J>(pool: PoolView<J>)
    requires
        pool.inv(),
    ensures
        pool.running().finite(),
        pool.running().len() <= pool.workers.len(),
{
    let running = pool.running();
    let worker_of = |t: int| pool.ledger[t]->Running_worker;
    let busy = running.map(worker_of);
    lemma_int_range(0, pool.ledger.len() as int);
    lemma_len_subset(running, set_int_range(0, pool.ledger.len() as int));
    assert(injective_on(worker_of, running)) by {
        assert forall|s: int, t: int|
            running.contains(s) && running.contains(t) && #[trigger] worker_of(s)
                == #[trigger] worker_of(t) implies s == t by {
            assert(pool.runs(worker_of(s), s) && pool.runs(worker_of(s), t));
        }
    }
    lemma_map_size(running, busy, worker_of);
    lemma_int_range(0, pool.workers.len() as int);
    assert(busy.subset_of(set_int_range(0, pool.workers.len() as int))) by {
        assert forall|i: int| busy.contains(i) implies set_int_range(
            0,
            pool.workers.len() as int,
        ).contains(i) by {
            let t = choose|t: int| running.contains(t) && worker_of(t) == i;
            assert(pool.job_consistent(t));
        }
    }
    lemma_len_subset(busy, set_int_range(0, pool.workers.len() as int));
}

/// Once every thread has been joined, nothing is left: the producer side is
/// closed, the queue is empty, every worker has stopped, and every job that
/// was ever submitted has been run to completion.
pub proof fn shutdown_leaves_nothing_behind<J>(pool: PoolView<J>)
    requires
        pool.inv(),
        pool.shut_down(),
    ensures
        !pool.queue.open,
        pool.queue.pending.len() == 0,
        forall|i: int|
            0 <= i < pool.workers.len() ==> (#[trigger] pool.workers[i]).state
                == WorkerState::Stopped,
        forall|t: int| 0 <= t < pool.submitted.len() ==> (#[trigger] pool.ledger[t]) is Done,
{
    assert(pool.worker_consistent(0));
    assert forall|i: int| 0 <= i < pool.workers.len() implies (#[trigger] pool.workers[i]).state
        == WorkerState::Stopped by {
        assert(pool.worker_consistent(i));
    }
    assert forall|t: int| 0 <= t < pool.submitted.len() implies (#[trigger] pool.ledger[t]) is Done by {
        assert(pool.job_consistent(t));
    }
}

/// Every job runs exactly once. Take any course of events that can happen to
/// a new pool and that ends with every thread joined. Then each job that was
/// submitted was handed out once, to one worker of the pool, and that worker
/// ran it to completion; nothing was handed out that was not submitted.
pub proof fn every_job_has_run_once_at_shutdown<J>(size: nat, events: Seq<Event<J>>)
    requires
        PoolView::<J>::possible(size, events),
        PoolView::<J>::run(size, events).shut_down(),
    ensures
        ({
            let pool = PoolView::<J>::run(size, events);
            let jobs = PoolView::<J>::submissions(events);
            let given = PoolView::<J>::handouts(size, events);
            &&& given.len() == jobs.len()
            &&& forall|t: int|
                0 <= t < jobs.len() ==> {
                    &&& (#[trigger] given[t]).job == jobs[t]
                    &&& 0 <= given[t].worker < size
                    &&& pool.ledger[t] == (JobStatus::Done { worker: given[t].worker })
                }
        }),
{
    let pool = PoolView::<J>::run(size, events);
    let jobs = PoolView::<J>::submissions(events);
    let given = PoolView::<J>::handouts(size, events);
    PoolView::<J>::run_inv(size, events);
    jobs_are_handed_out_once_in_order(size, events);
    shutdown_leaves_nothing_behind(pool);
    workers_are_those_made(size, events);
    assert forall|t: int| 0 <= t < jobs.len() implies {
        &&& (#[trigger] given[t]).job == jobs[t]
        &&& 0 <= given[t].worker < size
        &&& pool.ledger[t] == (JobStatus::Done { worker: given[t].worker })
    } by {
        assert(pool.job_consistent(t));
        assert(pool.ledger[t] is Done);
    }
}

/// A thread is joined only after its worker has left its loop: while a
/// worker is live, the pool still holds the handle of its thread, and
/// shutdown is not complete.
pub proof fn live_worker_is_not_joined<J>(pool: PoolView<J>, i: int)
    requires
        pool.inv(),
        0 <= i < pool.workers.len(),
        pool.workers[i].live(),
    ensures
        pool.workers[i].attached,
        !pool.shut_down(),
{
    assert(pool.worker_consistent(i));
}

} // verus!
