//! The invariant of the state machine holds of a fresh pool and is kept by
//! every transition, so it holds of every state a pool can reach.

use crate::model::{is_execution, step_at, PoolView};
use vstd::prelude::*;

verus! {

/// A fresh pool of at least one worker satisfies the invariant.
pub proof fn lemma_init_inv<J>(size: nat)
    requires
        1 <= size <= usize::MAX,
    ensures
        PoolView::<J>::init(size).inv(),
{
    let v = PoolView::<J>::init(size);
    assert forall|w: int| 0 <= w < v.workers.len() implies #[trigger] v.worker_inv(w) by {}
}

/// A submission keeps the invariant.
pub proof fn lemma_submit_inv<J>(v: PoolView<J>, job: J)
    requires
        v.inv(),
    ensures
        v.submit(job).inv(),
{
    let n = v.submit(job);
    assert forall|w: int| 0 <= w < n.workers.len() implies #[trigger] n.worker_inv(w) by {
        assert(v.worker_inv(w));
    }
    assert forall|i: int| 0 <= i < n.runs.len() implies #[trigger] n.run_inv(i) by {
        assert(v.run_inv(i));
    }
}

/// The start of teardown keeps the invariant.
pub proof fn lemma_close_inv<J>(v: PoolView<J>)
    requires
        v.inv(),
    ensures
        v.close().inv(),
{
    let n = v.close();
    assert forall|w: int| 0 <= w < n.workers.len() implies #[trigger] n.worker_inv(w) by {
        assert(v.worker_inv(w));
    }
    assert forall|i: int| 0 <= i < n.runs.len() implies #[trigger] n.run_inv(i) by {
        assert(v.run_inv(i));
    }
}

/// A worker taking a job keeps the invariant.
pub proof fn lemma_take_inv<J>(v: PoolView<J>, id: int)
    requires
        v.inv(),
        v.can_take(id),
    ensures
        v.take(id).inv(),
{
    let n = v.take(id);
    assert(v.worker_inv(id));
    assert forall|w: int| 0 <= w < n.workers.len() implies #[trigger] n.worker_inv(w) by {
        assert(v.worker_inv(w));
    }
    assert forall|i: int| 0 <= i < n.runs.len() implies #[trigger] n.run_inv(i) by {
        if i < v.runs.len() {
            assert(v.run_inv(i));
        }
    }
}

/// A worker leaving its loop keeps the invariant.
pub proof fn lemma_exit_inv<J>(v: PoolView<J>, id: int)
    requires
        v.inv(),
        v.can_exit(id),
    ensures
        v.exit(id).inv(),
{
    let n = v.exit(id);
    assert(v.worker_inv(id));
    assert forall|w: int| 0 <= w < n.workers.len() implies #[trigger] n.worker_inv(w) by {
        assert(v.worker_inv(w));
    }
    assert forall|i: int| 0 <= i < n.runs.len() implies #[trigger] n.run_inv(i) by {
        assert(v.run_inv(i));
    }
}

/// A worker completing its job keeps the invariant.
pub proof fn lemma_finish_inv<J>(v: PoolView<J>, id: int)
    requires
        v.inv(),
        v.can_finish(id),
    ensures
        v.finish(id).inv(),
{
    let n = v.finish(id);
    assert(v.worker_inv(id));
    assert forall|w: int| 0 <= w < n.workers.len() implies #[trigger] n.worker_inv(w) by {
        assert(v.worker_inv(w));
    }
    assert forall|i: int| 0 <= i < n.runs.len() implies #[trigger] n.run_inv(i) by {
        assert(v.run_inv(i));
    }
}

/// Teardown waiting for the next worker keeps the invariant.
pub proof fn lemma_join_inv<J>(v: PoolView<J>, panicked: bool)
    requires
        v.inv(),
        v.can_join(panicked),
    ensures
        v.join(panicked).inv(),
{
    let n = v.join(panicked);
    assert(v.worker_inv(v.joined as int));
    assert forall|w: int| 0 <= w < n.workers.len() implies #[trigger] n.worker_inv(w) by {
        assert(v.worker_inv(w));
    }
    assert forall|i: int| 0 <= i < n.runs.len() implies #[trigger] n.run_inv(i) by {
        assert(v.run_inv(i));
    }
}

/// Every transition keeps the invariant and the number of workers.
pub proof fn lemma_step_inv<J>(v: PoolView<J>, next: PoolView<J>)
    requires
        v.inv(),
        v.step(next),
    ensures
        next.inv(),
        next.size() == v.size(),
{
    if exists|job: J| next == v.submit(job) {
        let job = choose|job: J| next == v.submit(job);
        lemma_submit_inv(v, job);
    } else if next == v.close() {
        lemma_close_inv(v);
    } else if exists|id: int| v.can_take(id) && next == v.take(id) {
        let id = choose|id: int| v.can_take(id) && next == v.take(id);
        lemma_take_inv(v, id);
    } else if exists|id: int| v.can_exit(id) && next == v.exit(id) {
        let id = choose|id: int| v.can_exit(id) && next == v.exit(id);
        lemma_exit_inv(v, id);
    } else if exists|id: int| v.can_finish(id) && next == v.finish(id) {
        let id = choose|id: int| v.can_finish(id) && next == v.finish(id);
        lemma_finish_inv(v, id);
    } else {
        let panicked = choose|panicked: bool| v.can_join(panicked) && next == v.join(panicked);
        lemma_join_inv(v, panicked);
    }
}

/// Every state of an execution satisfies the invariant, and the pool keeps
/// the number of workers it was made with.
pub proof fn lemma_execution_inv<J>(size: nat, states: Seq<PoolView<J>>, k: int)
    requires
        is_execution(size, states),
        0 <= k < states.len(),
    ensures
        states[k].inv(),
        states[k].size() == size,
    decreases k,
{
    if k == 0 {
        lemma_init_inv::<J>(size);
    } else {
        lemma_execution_inv(size, states, k - 1);
        assert(step_at(states, k - 1));
        lemma_step_inv(states[k - 1], states[k]);
    }
}

} // verus!
