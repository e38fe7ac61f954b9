use vstd::prelude::*;

verus! {

/// Where a pool stands in its life.
#[derive(PartialEq, Eq, Structural, Clone, Copy, Debug)]
pub enum PoolState {
    /// Jobs are accepted and handed out.
    Running,
    /// No job is accepted; those already queued are still handed out.
    ShuttingDown,
    /// Every worker has left its loop.
    Terminated,
}

/// What one worker is doing.
#[derive(PartialEq, Eq, Structural, Clone, Copy, Debug)]
pub enum WorkerStatus {
    /// Blocked on the queue, ready for the next job.
    WaitingForJob,
    /// Running the job with this ticket.
    Executing(u64),
    /// Left its loop for good.
    Terminated,
}

/// The abstract state of a pool. Jobs are known by their tickets: the `k`-th
/// accepted job has ticket `k`, and the jobs still queued are those with
/// tickets `taken .. submitted`, in that order.
pub struct PoolModel {
    pub state: PoolState,
    /// One status per worker, indexed by worker id.
    pub workers: Seq<WorkerStatus>,
    /// Whether each worker's thread has been claimed for joining.
    pub joined: Seq<bool>,
    /// Number of jobs accepted so far.
    pub submitted: nat,
    /// Number of jobs handed to a worker so far.
    pub taken: nat,
    /// Tickets of the jobs that ran to completion, in the order they finished.
    pub finished: Seq<u64>,
}

pub open spec fn is_executing(s: WorkerStatus) -> bool {
    s is Executing
}

pub open spec fn ticket_of(s: WorkerStatus) -> u64
    recommends
        s is Executing,
{
    s->Executing_0
}

impl PoolModel {
    /// A fresh pool of `n` waiting workers.
    pub open spec fn init(n: nat) -> PoolModel {
        PoolModel {
            state: PoolState::Running,
            workers: Seq::new(n, |i: int| WorkerStatus::WaitingForJob),
            joined: Seq::new(n, |i: int| false),
            submitted: 0,
            taken: 0,
            finished: Seq::empty(),
        }
    }

    pub open spec fn size(self) -> nat {
        self.workers.len()
    }

    /// New jobs are accepted only while running.
    pub open spec fn accepts(self) -> bool {
        self.state == PoolState::Running
    }

    /// Number of accepted jobs that no worker has picked up yet.
    pub open spec fn pending(self) -> nat {
        (self.submitted - self.taken) as nat
    }

    pub open spec fn all_terminated(workers: Seq<WorkerStatus>) -> bool {
        forall|i: int| 0 <= i < workers.len() ==> workers[i] == WorkerStatus::Terminated
    }

    pub open spec fn some_terminated(self) -> bool {
        exists|i: int| 0 <= i < self.workers.len() && self.workers[i] == WorkerStatus::Terminated
    }

    /// The state after one more job is accepted.
    pub open spec fn submit(self) -> PoolModel {
        PoolModel { submitted: self.submitted + 1, ..self }
    }

    /// The state after shutdown is asked for; asking again changes nothing.
    pub open spec fn shut_down(self) -> PoolModel {
        if self.state == PoolState::Running {
            PoolModel { state: PoolState::ShuttingDown, ..self }
        } else {
            self
        }
    }

    /// The state after waiting worker `w` polls the queue: it takes the oldest
    /// queued job if there is one, waits if the pool still runs, and leaves its
    /// loop otherwise. The pool is terminated once the last worker has left.
    pub open spec fn poll(self, w: int) -> PoolModel {
        if self.taken < self.submitted {
            PoolModel {
                workers: self.workers.update(w, WorkerStatus::Executing(self.taken as u64)),
                taken: self.taken + 1,
                ..self
            }
        } else if self.state == PoolState::Running {
            self
        } else {
            let workers = self.workers.update(w, WorkerStatus::Terminated);
            PoolModel {
                workers,
                state: if Self::all_terminated(workers) {
                    PoolState::Terminated
                } else {
                    self.state
                },
                ..self
            }
        }
    }

    /// The state after worker `w` has run its job to completion.
    pub open spec fn finish(self, w: int) -> PoolModel {
        PoolModel {
            workers: self.workers.update(w, WorkerStatus::WaitingForJob),
            finished: self.finished.push(ticket_of(self.workers[w])),
            ..self
        }
    }

    /// Whether worker `w`'s thread may be joined now: shutdown has begun and
    /// nobody has claimed that thread before.
    pub open spec fn may_join(self, w: int) -> bool {
        self.state != PoolState::Running && !self.joined[w]
    }

    /// The state after worker `w`'s thread has been claimed for joining.
    pub open spec fn claim_join(self, w: int) -> PoolModel {
        PoolModel { joined: self.joined.update(w, true), ..self }
    }

    /// The invariant of every reachable state.
    pub open spec fn wf(self) -> bool {
        &&& self.size() >= 1
        &&& self.joined.len() == self.size()
        &&& self.taken <= self.submitted <= u64::MAX
        // a running job was handed out and has not finished
        &&& forall|i: int|
            #![trigger self.workers[i]]
            0 <= i < self.size() && is_executing(self.workers[i]) ==> {
                &&& ticket_of(self.workers[i]) < self.taken
                &&& !self.finished.contains(ticket_of(self.workers[i]))
            }
        // no two workers run the same job
        &&& forall|i: int, j: int|
            #![trigger self.workers[i], self.workers[j]]
            0 <= i < self.size() && 0 <= j < self.size() && i != j && is_executing(
                self.workers[i],
            ) && is_executing(self.workers[j]) ==> ticket_of(self.workers[i]) != ticket_of(
                self.workers[j],
            )
        // every job handed out has finished or is running
        &&& forall|t: u64|
            #![trigger self.finished.contains(t)]
            t < self.taken ==> self.finished.contains(t) || exists|i: int|
                0 <= i < self.size() && self.workers[i] == WorkerStatus::Executing(t)
        // only jobs handed out finish, and each at most once
        &&& forall|k: int| 0 <= k < self.finished.len() ==> self.finished[k] < self.taken
        &&& self.finished.no_duplicates()
        // workers leave only after shutdown began and the queue ran dry
        &&& self.state == PoolState::Running ==> !self.some_terminated()
        &&& self.some_terminated() ==> self.taken == self.submitted
        &&& (self.state == PoolState::Terminated <==> Self::all_terminated(self.workers))
    }
}


/// A fresh pool is in a reachable state.
pub proof fn lemma_init_wf(n: nat)
    requires
        n >= 1,
    ensures
        PoolModel::init(n).wf(),
{
    let m = PoolModel::init(n);
    assert(m.workers[0] == WorkerStatus::WaitingForJob);
}

/// Accepting a job keeps the invariant.
pub proof fn lemma_submit_wf(m: PoolModel)
    requires
        m.wf(),
        m.accepts(),
        m.submitted < u64::MAX,
    ensures
        m.submit().wf(),
{
}

/// Asking for shutdown keeps the invariant.
pub proof fn lemma_shut_down_wf(m: PoolModel)
    requires
        m.wf(),
    ensures
        m.shut_down().wf(),
{
}

/// A waiting worker's poll keeps the invariant.
pub proof fn lemma_poll_wf(m: PoolModel, w: int)
    requires
        m.wf(),
        0 <= w < m.size(),
        m.workers[w] == WorkerStatus::WaitingForJob,
    ensures
        m.poll(w).wf(),
{
    let r = m.poll(w);
    if m.taken < m.submitted {
        assert forall|t: u64| t < r.taken implies r.finished.contains(t) || exists|i: int|
            0 <= i < r.size() && r.workers[i] == WorkerStatus::Executing(t) by {
            if t == m.taken {
                assert(r.workers[w] == WorkerStatus::Executing(t));
            } else if !m.finished.contains(t) {
                let i = choose|i: int| 0 <= i < m.size() && m.workers[i] == WorkerStatus::Executing(t);
                assert(r.workers[i] == WorkerStatus::Executing(t));
            }
        }
        assert(!r.some_terminated()) by {
            if r.some_terminated() {
                let i = choose|i: int| 0 <= i < r.workers.len() && r.workers[i] == WorkerStatus::Terminated;
                assert(m.workers[i] == WorkerStatus::Terminated);
            }
        }
    } else if m.state != PoolState::Running {
        assert forall|t: u64| t < r.taken implies r.finished.contains(t) || exists|i: int|
            0 <= i < r.size() && r.workers[i] == WorkerStatus::Executing(t) by {
            if !m.finished.contains(t) {
                let i = choose|i: int| 0 <= i < m.size() && m.workers[i] == WorkerStatus::Executing(t);
                assert(i != w);
                assert(r.workers[i] == WorkerStatus::Executing(t));
            }
        }
        assert(r.workers[w] == WorkerStatus::Terminated);
        if PoolModel::all_terminated(m.workers) {
            assert(m.workers[w] == WorkerStatus::Terminated);
        }
    }
}

/// Finishing a running job keeps the invariant.
pub proof fn lemma_finish_wf(m: PoolModel, w: int)
    requires
        m.wf(),
        0 <= w < m.size(),
        is_executing(m.workers[w]),
    ensures
        m.finish(w).wf(),
{
    let r = m.finish(w);
    let t0 = ticket_of(m.workers[w]);
    assert forall|i: int|
        #![trigger r.workers[i]]
        0 <= i < r.size() && is_executing(r.workers[i]) implies {
            &&& ticket_of(r.workers[i]) < r.taken
            &&& !r.finished.contains(ticket_of(r.workers[i]))
        } by {
        assert(i != w);
        assert(m.workers[i] == r.workers[i]);
        if r.finished.contains(ticket_of(r.workers[i])) {
            let k = choose|k: int| 0 <= k < r.finished.len() && r.finished[k] == ticket_of(r.workers[i]);
            if k < m.finished.len() {
                assert(m.finished.contains(ticket_of(r.workers[i])));
            }
        }
    }
    assert forall|t: u64| t < r.taken implies r.finished.contains(t) || exists|i: int|
        0 <= i < r.size() && r.workers[i] == WorkerStatus::Executing(t) by {
        if t == t0 {
            assert(r.finished[m.finished.len() as int] == t);
        } else if m.finished.contains(t) {
            let k = choose|k: int| 0 <= k < m.finished.len() && m.finished[k] == t;
            assert(r.finished[k] == t);
        } else {
            let i = choose|i: int| 0 <= i < m.size() && m.workers[i] == WorkerStatus::Executing(t);
            assert(i != w);
            assert(r.workers[i] == WorkerStatus::Executing(t));
        }
    }
    assert(r.finished.no_duplicates()) by {
        assert forall|a: int, b: int| 0 <= a < r.finished.len() && 0 <= b < r.finished.len() && a != b
            implies r.finished[a] != r.finished[b] by {
            if a == m.finished.len() {
                assert(m.finished.contains(r.finished[b]));
            } else if b == m.finished.len() {
                assert(m.finished.contains(r.finished[a]));
            }
        }
    }
    assert(!r.some_terminated() <==> !m.some_terminated()) by {
        if r.some_terminated() {
            let i = choose|i: int| 0 <= i < r.workers.len() && r.workers[i] == WorkerStatus::Terminated;
            assert(m.workers[i] == WorkerStatus::Terminated);
        }
        if m.some_terminated() {
            let i = choose|i: int| 0 <= i < m.workers.len() && m.workers[i] == WorkerStatus::Terminated;
            assert(r.workers[i] == WorkerStatus::Terminated);
        }
    }
    assert(r.workers[w] == WorkerStatus::WaitingForJob);
    assert(!PoolModel::all_terminated(r.workers));
    assert(!PoolModel::all_terminated(m.workers));
}

/// Claiming a worker's thread for joining keeps the invariant.
pub proof fn lemma_claim_join_wf(m: PoolModel, w: int)
    requires
        m.wf(),
        0 <= w < m.size(),
    ensures
        m.claim_join(w).wf(),
{
}

} // verus!
