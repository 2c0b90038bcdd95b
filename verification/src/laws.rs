//! The guarantees of the pool: what holds of every state a pool can reach,
//! of every transition, and of every execution.

use crate::inductive::{lemma_execution_inv, lemma_step_inv};
use crate::model::{
    events_left, events_left_of_all, hands_out, is_execution, step_at, teardown_bound, PoolError,
    PoolState, PoolView, Step,
};
use crate::worker::{Worker, WorkerStatus};
use vstd::prelude::*;

verus! {

/// A pool has at least one worker; the worker at place `w` of creation order
/// has id `w`, so the ids are exactly `0..size` and no two workers share one.
pub proof fn lemma_worker_ids<J>(v: PoolView<J>)
    requires
        v.inv(),
    ensures
        v.size() >= 1,
        forall|w: int| 0 <= w < v.size() ==> (#[trigger] v.workers[w]).id == w,
        forall|a: int, b: int|
            0 <= a < v.size() && 0 <= b < v.size() && a != b ==> (#[trigger] v.workers[a]).id != (
            #[trigger] v.workers[b]).id,
{
    assert forall|w: int| 0 <= w < v.size() implies (#[trigger] v.workers[w]).id == w by {
        assert(v.worker_inv(w));
    }
}

/// Every accepted job is in exactly one place. The jobs not yet handed out
/// are pending, in submission order. A job that is running is held by one
/// busy worker, a busy worker holds one running job, and no two running jobs
/// share a worker.
pub proof fn lemma_each_job_in_one_place<J>(v: PoolView<J>)
    requires
        v.inv(),
    ensures
        v.started() + v.pending().len() == v.jobs.len(),
        forall|k: int|
            0 <= k < v.pending().len() ==> #[trigger] v.pending()[k] == v.jobs[v.started() + k],
        forall|i: int|
            0 <= i < v.started() && (#[trigger] v.runs[i]).outcome is Running ==> v.worker_is(
                v.runs[i].worker as int,
                WorkerStatus::Busy,
            ),
        forall|w: int|
            0 <= w < v.size() && (#[trigger] v.workers[w]).status is Busy ==> v.current[w]
                < v.started() && v.runs[v.current[w] as int].worker == w
                && v.runs[v.current[w] as int].outcome is Running,
        forall|i: int, j: int|
            0 <= i < v.started() && 0 <= j < v.started() && i != j && (
            #[trigger] v.runs[i]).outcome is Running && (#[trigger] v.runs[j]).outcome is Running
                ==> v.runs[i].worker != v.runs[j].worker,
{
    assert forall|i: int|
        0 <= i < v.started() && (#[trigger] v.runs[i]).outcome is Running implies v.worker_is(
        v.runs[i].worker as int,
        WorkerStatus::Busy,
    ) by {
        assert(v.run_inv(i));
    }
    assert forall|w: int|
        0 <= w < v.size() && (#[trigger] v.workers[w]).status is Busy implies v.current[w]
        < v.started() && v.runs[v.current[w] as int].worker == w
        && v.runs[v.current[w] as int].outcome is Running by {
        assert(v.worker_inv(w));
    }
    assert forall|i: int, j: int|
        0 <= i < v.started() && 0 <= j < v.started() && i != j && (
        #[trigger] v.runs[i]).outcome is Running && (
        #[trigger] v.runs[j]).outcome is Running implies v.runs[i].worker != v.runs[j].worker by {
        assert(v.run_inv(i));
        assert(v.run_inv(j));
    }
}

/// No transition changes the past. The accepted jobs stay as they are and at
/// most one is added; the jobs handed out stay handed out and at most one
/// more is; a job stays with the worker that took it; and the record of a
/// job that is no longer running never changes again.
pub proof fn lemma_history_is_kept<J>(v: PoolView<J>, next: PoolView<J>)
    requires
        v.inv(),
        v.step(next),
    ensures
        v.jobs.is_prefix_of(next.jobs),
        next.jobs.len() <= v.jobs.len() + 1,
        v.started() <= next.started() <= v.started() + 1,
        forall|i: int|
            0 <= i < v.started() ==> (#[trigger] next.runs[i]).worker == v.runs[i].worker,
        forall|i: int|
            0 <= i < v.started() && !(v.runs[i].outcome is Running) ==> #[trigger] next.runs[i]
                == v.runs[i],
{
    if exists|id: int| v.can_finish(id) && next == v.finish(id) {
        let id = choose|id: int| v.can_finish(id) && next == v.finish(id);
        assert(v.worker_inv(id));
    } else if exists|panicked: bool| v.can_join(panicked) && next == v.join(panicked) {
        assert(v.worker_inv(v.joined as int));
    }
}

/// Along an execution the history only grows: what was accepted stays
/// accepted, and the number of jobs handed out never falls.
pub proof fn lemma_history_grows<J>(size: nat, states: Seq<PoolView<J>>, a: int, b: int)
    requires
        is_execution(size, states),
        0 <= a <= b < states.len(),
    ensures
        states[a].jobs.is_prefix_of(states[b].jobs),
        states[a].started() <= states[b].started(),
    decreases b - a,
{
    if a < b {
        lemma_history_grows(size, states, a, b - 1);
        lemma_execution_inv(size, states, b - 1);
        assert(step_at(states, b - 1));
        lemma_history_is_kept(states[b - 1], states[b]);
    }
}

/// A transition that hands out a job is one idle worker taking the oldest
/// pending job: that worker becomes busy with it, and every other worker
/// stays as it was.
pub proof fn lemma_hand_out_is_one_take<J>(size: nat, states: Seq<PoolView<J>>, k: int, i: nat)
    requires
        is_execution(size, states),
        hands_out(states, k, i),
    ensures
        i < states[k].jobs.len(),
        states[k].pending()[0] == states[k].jobs[i as int],
        states[k + 1].runs[i as int].outcome is Running,
        states[k].worker_is(states[k + 1].runs[i as int].worker as int, WorkerStatus::Idle),
        states[k + 1].worker_is(states[k + 1].runs[i as int].worker as int, WorkerStatus::Busy),
        forall|w: int|
            0 <= w < size && w != states[k + 1].runs[i as int].worker ==> #[trigger] states[k
                + 1].workers[w] == states[k].workers[w],
{
    let v = states[k];
    let next = states[k + 1];
    lemma_execution_inv(size, states, k);
    assert(step_at(states, k));
    if exists|id: int| v.can_finish(id) && next == v.finish(id) {
        let id = choose|id: int| v.can_finish(id) && next == v.finish(id);
        assert(v.worker_inv(id));
    } else if exists|panicked: bool| v.can_join(panicked) && next == v.join(panicked) {
        assert(v.worker_inv(v.joined as int));
    }
}

/// No job is handed out twice: if two transitions of an execution hand out
/// the same job, they are the same transition.
pub proof fn lemma_job_starts_at_most_once<J>(
    size: nat,
    states: Seq<PoolView<J>>,
    a: int,
    b: int,
    i: nat,
)
    requires
        is_execution(size, states),
        hands_out(states, a, i),
        hands_out(states, b, i),
    ensures
        a == b,
{
    if a < b {
        lemma_history_grows(size, states, a + 1, b);
    } else if b < a {
        lemma_history_grows(size, states, b + 1, a);
    }
}

/// Every job that counts as handed out in state `n` of an execution was
/// handed out by a transition before that state.
pub proof fn lemma_started_job_was_handed_out<J>(
    size: nat,
    states: Seq<PoolView<J>>,
    n: int,
    i: nat,
)
    requires
        is_execution(size, states),
        0 <= n < states.len(),
        i < states[n].started(),
    ensures
        exists|k: int| 0 <= k < n && hands_out(states, k, i),
    decreases n,
{
    if n > 0 {
        lemma_execution_inv(size, states, n - 1);
        assert(step_at(states, n - 1));
        lemma_history_is_kept(states[n - 1], states[n]);
        if i < states[n - 1].started() {
            lemma_started_job_was_handed_out(size, states, n - 1, i);
            let k = choose|k: int| 0 <= k < n - 1 && hands_out(states, k, i);
            assert(0 <= k < n && hands_out(states, k, i));
        } else {
            assert(hands_out(states, n - 1, i));
        }
    }
}

/// Every job runs exactly once. Whatever the number of workers and of jobs,
/// a job that has been started or finished in some state of an execution was
/// handed to a worker by exactly one transition of that execution, and a job
/// that has not been started was handed out by none.
pub proof fn lemma_job_runs_exactly_once<J>(size: nat, states: Seq<PoolView<J>>, n: int, i: nat)
    requires
        is_execution(size, states),
        0 <= n < states.len(),
        i < states[n].jobs.len(),
    ensures
        i < states[n].started() ==> exists|k: int|
            {
                &&& 0 <= k < n
                &&& #[trigger] hands_out(states, k, i)
                &&& forall|other: int| #[trigger] hands_out(states, other, i) ==> other == k
            },
        i >= states[n].started() ==> forall|k: int|
            0 <= k < n ==> !#[trigger] hands_out(states, k, i),
{
    if i < states[n].started() {
        lemma_started_job_was_handed_out(size, states, n, i);
        let k = choose|k: int| 0 <= k < n && hands_out(states, k, i);
        assert forall|other: int| #[trigger] hands_out(states, other, i) implies other == k by {
            lemma_job_starts_at_most_once(size, states, other, k, i);
        }
    } else {
        assert forall|k: int| 0 <= k < n implies !#[trigger] hands_out(states, k, i) by {
            lemma_history_grows(size, states, k + 1, n);
        }
    }
}

/// A busy worker holds nobody back: an idle worker that asks while a job is
/// pending is handed the oldest pending job, whatever the other workers are
/// doing, and they stay as they were.
pub proof fn lemma_idle_worker_takes_pending_job<J>(v: PoolView<J>, id: int)
    requires
        v.inv(),
        v.worker_is(id, WorkerStatus::Idle),
        v.pending().len() > 0,
    ensures
        v.receive_result(id) == Ok::<Step<J>, PoolError>(Step::Run(v.pending()[0])),
        v.after_receive(id).worker_is(id, WorkerStatus::Busy),
        v.after_receive(id).pending() == v.pending().skip(1),
        forall|w: int|
            0 <= w < v.size() && w != id ==> #[trigger] v.after_receive(id).workers[w]
                == v.workers[w],
{
}

/// Teardown drains the queue: when the pool is terminated and no worker
/// panicked, every job the pool accepted has been handed to a worker and run
/// to completion, and nothing is pending.
pub proof fn lemma_terminated_pool_is_drained<J>(v: PoolView<J>)
    requires
        v.inv(),
        v.state() == PoolState::Terminated,
        forall|w: int| 0 <= w < v.size() ==> !((#[trigger] v.workers[w]).status is Panicked),
    ensures
        v.pending().len() == 0,
        v.started() == v.jobs.len(),
        forall|i: int| 0 <= i < v.jobs.len() ==> (#[trigger] v.runs[i]).outcome is Completed,
{
    assert(v.worker_inv(0));
    assert(!(v.workers[0].status is Panicked));
    assert forall|i: int| 0 <= i < v.runs.len() implies (#[trigger] v.runs[i]).outcome
        is Completed by {
        assert(v.run_inv(i));
        assert(v.worker_inv(v.runs[i].worker as int));
        assert(!(v.workers[v.runs[i].worker as int].status is Panicked));
    }
}

/// Teardown drains the queue even when workers panicked, as long as one of
/// them left its loop by itself: in the terminated pool nothing is pending,
/// and every accepted job was either run to completion or abandoned by a
/// worker that panicked while running it.
pub proof fn lemma_terminated_pool_lost_only_to_panics<J>(v: PoolView<J>, survivor: int)
    requires
        v.inv(),
        v.state() == PoolState::Terminated,
        v.worker_is(survivor, WorkerStatus::Joined),
    ensures
        v.pending().len() == 0,
        v.started() == v.jobs.len(),
        forall|i: int|
            0 <= i < v.jobs.len() ==> (#[trigger] v.runs[i]).outcome is Completed || (
            v.runs[i].outcome is Abandoned && v.worker_is(
                v.runs[i].worker as int,
                WorkerStatus::Panicked,
            )),
{
    assert(v.worker_inv(survivor));
    assert forall|i: int| 0 <= i < v.runs.len() implies (#[trigger] v.runs[i]).outcome
        is Completed || (v.runs[i].outcome is Abandoned && v.worker_is(
        v.runs[i].worker as int,
        WorkerStatus::Panicked,
    )) by {
        assert(v.run_inv(i));
        assert(v.worker_inv(v.runs[i].worker as int));
    }
}

/// Teardown cannot be undone. Once a pool has stopped accepting work, no
/// transition makes it accept again, adds a job to its history, or lowers
/// the number of workers waited for.
pub proof fn lemma_teardown_is_final<J>(v: PoolView<J>, next: PoolView<J>)
    requires
        v.inv(),
        v.step(next),
        !v.accepting,
    ensures
        !next.accepting,
        next.jobs == v.jobs,
        next.joined >= v.joined,
{
}

/// A job starts only where a worker is idle: while every worker is busy or
/// gone, no transition hands out a job, however many are pending.
pub proof fn lemma_no_start_without_idle_worker<J>(v: PoolView<J>, next: PoolView<J>)
    requires
        v.inv(),
        v.step(next),
        forall|w: int| 0 <= w < v.size() ==> !((#[trigger] v.workers[w]).status is Idle),
    ensures
        next.started() == v.started(),
{
    if exists|id: int| v.can_take(id) && next == v.take(id) {
        let id = choose|id: int| v.can_take(id) && next == v.take(id);
        assert(v.workers[id].status is Idle);
    } else if exists|id: int| v.can_finish(id) && next == v.finish(id) {
        let id = choose|id: int| v.can_finish(id) && next == v.finish(id);
        assert(v.worker_inv(id));
    } else if exists|panicked: bool| v.can_join(panicked) && next == v.join(panicked) {
        assert(v.worker_inv(v.joined as int));
    }
}

/// A panic stays with the worker it happened to. Recording it changes the
/// status of that worker and the record of the job it held, and nothing
/// else: the other workers, their jobs, and the pending jobs are as before.
pub proof fn lemma_panic_is_contained<J>(v: PoolView<J>)
    requires
        v.inv(),
        v.can_join(true),
    ensures
        v.join(true).jobs == v.jobs,
        v.join(true).pending() == v.pending(),
        v.join(true).accepting == v.accepting,
        forall|w: int|
            0 <= w < v.size() && w != v.joined ==> #[trigger] v.join(true).workers[w]
                == v.workers[w],
        forall|i: int|
            0 <= i < v.started() && v.runs[i].worker != v.joined ==> #[trigger] v.join(
                true,
            ).runs[i] == v.runs[i],
{
    let w = v.joined as int;
    assert(v.worker_inv(w));
}

/// Teardown skips no worker: in a terminated pool every worker has been
/// waited for, whether its thread ended normally or in a panic.
pub proof fn lemma_terminated_means_all_joined<J>(v: PoolView<J>)
    requires
        v.inv(),
        v.state() == PoolState::Terminated,
    ensures
        v.joined == v.size(),
        forall|w: int|
            0 <= w < v.size() ==> (#[trigger] v.workers[w]).status is Joined
                || v.workers[w].status is Panicked,
{
    assert forall|w: int| 0 <= w < v.size() implies (#[trigger] v.workers[w]).status is Joined
        || v.workers[w].status is Panicked by {
        assert(v.worker_inv(w));
    }
}

/// The phases come in order. An accepting pool does not terminate before it
/// has drained, a draining pool never accepts again, and a terminated pool
/// never changes at all.
pub proof fn lemma_phases_in_order<J>(v: PoolView<J>, next: PoolView<J>)
    requires
        v.inv(),
        v.step(next),
    ensures
        v.state() == PoolState::Accepting ==> next.state() != PoolState::Terminated,
        v.state() == PoolState::Draining ==> next.state() != PoolState::Accepting,
        v.state() == PoolState::Terminated ==> next == v,
{
    if v.state() == PoolState::Terminated {
        lemma_terminated_means_all_joined(v);
        if exists|id: int| v.can_take(id) && next == v.take(id) {
            let id = choose|id: int| v.can_take(id) && next == v.take(id);
            assert(v.workers[id].status is Idle);
        } else if exists|id: int| v.can_exit(id) && next == v.exit(id) {
            let id = choose|id: int| v.can_exit(id) && next == v.exit(id);
            assert(v.workers[id].status is Idle);
        } else if exists|id: int| v.can_finish(id) && next == v.finish(id) {
            let id = choose|id: int| v.can_finish(id) && next == v.finish(id);
            assert(v.workers[id].status is Busy);
        }
    }
}

/// Whatever the pool makes of an event is a transition of the state machine
/// or leaves the state as it was, so every law about transitions holds of
/// the events that a pool answers.
pub proof fn lemma_events_are_steps<J>(v: PoolView<J>, job: J, id: int, panicked: bool)
    requires
        v.inv(),
    ensures
        v.step(v.submit(job)),
        v.step(v.close()),
        v.after_receive(id) == v || v.step(v.after_receive(id)),
        v.after_finish(id) == v || v.step(v.after_finish(id)),
        v.after_join(panicked) == v || v.step(v.after_join(panicked)),
{
}

/// Teardown cannot get stuck: while a pool is draining, some event is
/// possible. The next worker in creation order either can be waited for, or
/// it can finish its job, take a pending one, or leave its loop.
pub proof fn lemma_draining_pool_can_go_on<J>(v: PoolView<J>)
    requires
        v.inv(),
        v.state() == PoolState::Draining,
    ensures
        v.can_join(false) || v.can_finish(v.joined as int) || v.can_take(v.joined as int)
            || v.can_exit(v.joined as int),
{
    assert(v.worker_inv(v.joined as int));
}

/// Replacing the status of one worker changes the sum of the events left by
/// the difference between the two statuses.
proof fn lemma_events_left_update(workers: Seq<Worker>, id: int, worker: Worker)
    requires
        0 <= id < workers.len(),
    ensures
        events_left_of_all(workers.update(id, worker)) + events_left(workers[id].status)
            == events_left_of_all(workers) + events_left(worker.status),
    decreases workers.len(),
{
    let updated = workers.update(id, worker);
    if id == workers.len() - 1 {
        assert(updated.drop_last() =~= workers.drop_last());
    } else {
        assert(updated.drop_last() =~= workers.drop_last().update(id, worker));
        lemma_events_left_update(workers.drop_last(), id, worker);
    }
}

/// Teardown comes to an end: once it has begun, every transition that
/// changes the pool lowers [`teardown_bound`], so only finitely many of them
/// can follow.
pub proof fn lemma_teardown_comes_to_an_end<J>(v: PoolView<J>, next: PoolView<J>)
    requires
        v.inv(),
        v.step(next),
        !v.accepting,
        next != v,
    ensures
        teardown_bound(next) < teardown_bound(v),
{
    if exists|id: int| v.can_take(id) && next == v.take(id) {
        let id = choose|id: int| v.can_take(id) && next == v.take(id);
        lemma_events_left_update(v.workers, id, next.workers[id]);
    } else if exists|id: int| v.can_exit(id) && next == v.exit(id) {
        let id = choose|id: int| v.can_exit(id) && next == v.exit(id);
        lemma_events_left_update(v.workers, id, next.workers[id]);
    } else if exists|id: int| v.can_finish(id) && next == v.finish(id) {
        let id = choose|id: int| v.can_finish(id) && next == v.finish(id);
        assert(v.worker_inv(id));
        lemma_events_left_update(v.workers, id, next.workers[id]);
    } else if exists|panicked: bool| v.can_join(panicked) && next == v.join(panicked) {
        let w = v.joined as int;
        assert(v.worker_inv(w));
        lemma_events_left_update(v.workers, w, next.workers[w]);
    } else {
        assert(next =~= v);
    }
}

} // verus!
