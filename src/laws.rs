use vstd::prelude::*;
use crate::model::{is_executing, ticket_of, PoolModel, PoolState, WorkerStatus};

verus! {

/// The state after workers `0 .. n` each poll once, in id order.
pub open spec fn poll_each(m: PoolModel, n: nat) -> PoolModel
    decreases n,
{
    if n == 0 {
        m
    } else {
        poll_each(m, (n - 1) as nat).poll(n - 1)
    }
}

proof fn lemma_idle_poll_each(n: nat, k: nat)
    requires
        1 <= n,
        k <= n,
    ensures
        ({
            let s = poll_each(PoolModel::init(n).shut_down(), k);
            &&& s.wf()
            &&& s.submitted == 0 && s.taken == 0
            &&& s.finished == Seq::<u64>::empty()
            &&& s.joined == PoolModel::init(n).joined
            &&& s.workers.len() == n
            &&& forall|i: int| 0 <= i < k ==> s.workers[i] == WorkerStatus::Terminated
            &&& forall|i: int| k <= i < n ==> s.workers[i] == WorkerStatus::WaitingForJob
            &&& s.state == (if k == n {
                PoolState::Terminated
            } else {
                PoolState::ShuttingDown
            })
        }),
    decreases k,
{
    let s0 = PoolModel::init(n).shut_down();
    if k == 0 {
        crate::model::lemma_init_wf(n);
        crate::model::lemma_shut_down_wf(PoolModel::init(n));
    } else {
        lemma_idle_poll_each(n, (k - 1) as nat);
        let p = poll_each(s0, (k - 1) as nat);
        crate::model::lemma_poll_wf(p, k - 1);
        let s = p.poll(k - 1);
        if k < n {
            assert(s.workers[k as int] == WorkerStatus::WaitingForJob);
            assert(!PoolModel::all_terminated(s.workers));
        } else {
            assert(PoolModel::all_terminated(s.workers));
        }
    }
}

/// A pool of any size `n >= 1` that is shut down before any job arrives
/// terminates: when each worker polls once, in id order, each is told to
/// leave (the queue is empty and no job is accepted), and after the last one
/// the pool is terminated with every worker gone and every thread still to
/// be joined.
pub proof fn lemma_idle_pool_terminates(n: nat)
    requires
        n >= 1,
    ensures
        forall|k: nat|
            #![trigger poll_each(PoolModel::init(n).shut_down(), k)]
            k < n ==> {
                let s = poll_each(PoolModel::init(n).shut_down(), k);
                &&& s.workers[k as int] == WorkerStatus::WaitingForJob
                &&& s.pending() == 0
                &&& !s.accepts()
            },
        ({
            let s = poll_each(PoolModel::init(n).shut_down(), n);
            &&& s.wf()
            &&& s.state == PoolState::Terminated
            &&& PoolModel::all_terminated(s.workers)
            &&& forall|w: int| 0 <= w < n ==> s.may_join(w)
        }),
{
    assert forall|k: nat|
        #![trigger poll_each(PoolModel::init(n).shut_down(), k)]
        k < n implies {
            let s = poll_each(PoolModel::init(n).shut_down(), k);
            &&& s.workers[k as int] == WorkerStatus::WaitingForJob
            &&& s.pending() == 0
            &&& !s.accepts()
        } by {
        lemma_idle_poll_each(n, k);
    }
    lemma_idle_poll_each(n, n);
}

/// A worker's thread is granted for joining exactly once after shutdown has
/// begun: the first claim succeeds and every later one fails.
pub proof fn lemma_join_granted_once(m: PoolModel, w: int)
    requires
        m.wf(),
        0 <= w < m.size(),
        !m.accepts(),
        !m.joined[w],
    ensures
        m.may_join(w),
        !m.claim_join(w).may_join(w),
{
}

proof fn lemma_range_permutation_len(s: Seq<u64>, n: nat)
    requires
        s.no_duplicates(),
        forall|k: int| 0 <= k < s.len() ==> s[k] < n,
        forall|t: u64| t < n ==> s.contains(t),
        n <= u64::MAX + 1,
    ensures
        s.len() == n,
    decreases n,
{
    if n == 0 {
        if s.len() > 0 {
            assert(s[0] < 0);
        }
    } else {
        let top = (n - 1) as u64;
        assert(s.contains(top));
        let i = choose|i: int| 0 <= i < s.len() && s[i] == top;
        let r = s.remove(i);
        assert forall|k: int| 0 <= k < r.len() implies r[k] < n - 1 by {
            if k < i {
                assert(r[k] == s[k]);
            } else {
                assert(r[k] == s[k + 1]);
            }
        }
        assert forall|t: u64| t < n - 1 implies r.contains(t) by {
            assert(s.contains(t));
            let j = choose|j: int| 0 <= j < s.len() && s[j] == t;
            if j < i {
                assert(r[j] == t);
            } else {
                assert(j != i);
                assert(r[j - 1] == s[j]);
            }
        }
        assert(r.no_duplicates()) by {
            assert forall|a: int, b: int| 0 <= a < r.len() && 0 <= b < r.len() && a != b
                implies r[a] != r[b] by {
                let sa = if a < i { a } else { a + 1 };
                let sb = if b < i { b } else { b + 1 };
                assert(r[a] == s[sa]);
                assert(r[b] == s[sb]);
            }
        }
        lemma_range_permutation_len(r, (n - 1) as nat);
    }
}

/// Once a pool has terminated, every accepted job ran exactly once: the
/// record of finished jobs holds exactly as many entries as jobs were
/// accepted, each ticket `0 .. submitted` once and no other.
pub proof fn lemma_terminated_ran_each_job_once(m: PoolModel)
    requires
        m.wf(),
        m.state == PoolState::Terminated,
    ensures
        m.pending() == 0,
        m.finished.len() == m.submitted,
        m.finished.no_duplicates(),
        forall|t: u64| t < m.submitted ==> m.finished.contains(t),
        forall|k: int| 0 <= k < m.finished.len() ==> m.finished[k] < m.submitted,
{
    assert(m.workers[0] == WorkerStatus::Terminated);
    assert(m.some_terminated());
    assert forall|t: u64| t < m.submitted implies m.finished.contains(t) by {
        if !m.finished.contains(t) {
            let i = choose|i: int| 0 <= i < m.size() && m.workers[i] == WorkerStatus::Executing(t);
            assert(m.workers[i] == WorkerStatus::Terminated);
        }
    }
    lemma_range_permutation_len(m.finished, m.submitted);
}

/// Once shutdown has begun the pool never accepts a job again, whatever its
/// workers do next.
pub proof fn lemma_closed_stays_closed(m: PoolModel, w: int)
    ensures
        !m.shut_down().accepts(),
        !m.accepts() ==> !m.poll(w).accepts(),
        !m.accepts() ==> !m.finish(w).accepts(),
        !m.accepts() ==> !m.claim_join(w).accepts(),
        !m.accepts() ==> m.shut_down() == m,
{
}

/// A worker busy with a long job does not hold up the others: while worker
/// `a` runs its job, a waiting worker `b` is handed the oldest queued job
/// and can finish it with `a` still running.
pub proof fn lemma_busy_worker_leaves_others_free(m: PoolModel, a: int, b: int)
    requires
        m.wf(),
        0 <= a < m.size(),
        0 <= b < m.size(),
        a != b,
        is_executing(m.workers[a]),
        m.workers[b] == WorkerStatus::WaitingForJob,
        m.pending() > 0,
    ensures
        m.poll(b).workers[b] == WorkerStatus::Executing(m.taken as u64),
        m.poll(b).workers[a] == m.workers[a],
        m.poll(b).finish(b).workers[a] == m.workers[a],
        m.poll(b).finish(b).finished == m.finished.push(m.taken as u64),
        m.poll(b).finish(b).wf(),
        !m.poll(b).finish(b).finished.contains(ticket_of(m.workers[a])),
{
    crate::model::lemma_poll_wf(m, b);
    crate::model::lemma_finish_wf(m.poll(b), b);
    let r = m.poll(b).finish(b);
    assert(is_executing(r.workers[a]));
}

} // verus!
