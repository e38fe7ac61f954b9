use vstd::prelude::*;
use std::collections::VecDeque;
use crate::model::{is_executing, PoolModel, PoolState, WorkerStatus};

verus! {

/// Why a pool refused a request.
#[derive(PartialEq, Eq, Structural, Clone, Copy, Debug)]
pub enum PoolError {
    /// A pool needs at least one worker.
    ZeroSize,
    /// Shutdown has begun: the job was not accepted and will never run.
    Closed,
}

/// What a waiting worker is told to do next.
pub enum Dispatch<J> {
    /// Run this job, then report back with `job_done`.
    Run { ticket: u64, job: J },
    /// The queue is empty and the pool still runs: block until woken.
    Wait,
    /// The pool is shutting down and the queue is drained: leave the loop.
    Exit,
}

/// The shared state of a fixed-size pool: its lifecycle, the status of each
/// worker, and the unbounded queue of jobs not yet handed out.
///
/// Every worker thread runs the same loop against it: `next_job` to claim
/// work, `job_done` after running it, until told to `Exit`. Producers call
/// `execute`; the owner calls `shutdown` and then joins each worker thread
/// that `claim_join` grants.
pub struct WorkerPool<J> {
    state: PoolState,
    workers: Vec<WorkerStatus>,
    joined: Vec<bool>,
    queue: VecDeque<J>,
    submitted: u64,
    taken: u64,
    finished: Ghost<Seq<u64>>,
}

impl<J> View for WorkerPool<J> {
    type V = PoolModel;

    closed spec fn view(&self) -> PoolModel {
        PoolModel {
            state: self.state,
            workers: self.workers@,
            joined: self.joined@,
            submitted: self.submitted as nat,
            taken: self.taken as nat,
            finished: self.finished@,
        }
    }
}

impl<J> WorkerPool<J> {
    /// The jobs not yet handed out, oldest first.
    pub closed spec fn queued(&self) -> Seq<J> {
        self.queue@
    }

    /// The pool's well-formedness: its abstract state is reachable and the
    /// queue holds exactly the jobs with tickets `taken .. submitted`.
    pub open spec fn wf(&self) -> bool {
        &&& self@.wf()
        &&& self.queued().len() == self@.pending()
    }

    /// Builds a pool of `size` workers, all waiting for a job. A size of zero
    /// is refused: such a pool could never run anything.
    pub fn new(size: usize) -> (r: Result<Self, PoolError>)
        ensures
            match r {
                Ok(p) => {
                    &&& size >= 1
                    &&& p.wf()
                    &&& p@ == PoolModel::init(size as nat)
                    &&& p.queued() == Seq::<J>::empty()
                },
                Err(e) => size == 0 && e == PoolError::ZeroSize,
            },
    {
        if size == 0 {
            return Err(PoolError::ZeroSize);
        }
        let mut workers: Vec<WorkerStatus> = Vec::new();
        let mut joined: Vec<bool> = Vec::new();
        let mut i: usize = 0;
        while i < size
            invariant
                i <= size,
                workers@ == Seq::new(i as nat, |k: int| WorkerStatus::WaitingForJob),
                joined@ == Seq::new(i as nat, |k: int| false),
            decreases size - i,
        {
            workers.push(WorkerStatus::WaitingForJob);
            joined.push(false);
            i = i + 1;
        }
        let p = WorkerPool {
            state: PoolState::Running,
            workers,
            joined,
            queue: VecDeque::new(),
            submitted: 0,
            taken: 0,
            finished: Ghost(Seq::empty()),
        };
        proof {
            crate::model::lemma_init_wf(size as nat);
            assert(p@ == PoolModel::init(size as nat));
        }
        Ok(p)
    }

    /// Number of workers, fixed for the pool's life.
    pub fn size(&self) -> (r: usize)
        requires
            self.wf(),
        ensures
            r == self@.size(),
    {
        self.workers.len()
    }

    pub fn state(&self) -> (r: PoolState)
        ensures
            r == self@.state,
    {
        self.state
    }

    /// Number of jobs accepted and not yet handed to a worker.
    pub fn pending(&self) -> (r: usize)
        requires
            self.wf(),
        ensures
            r == self@.pending(),
    {
        self.queue.len()
    }

    /// Number of jobs accepted so far; also the ticket of the next one.
    pub fn submitted(&self) -> (r: u64)
        ensures
            r == self@.submitted,
    {
        self.submitted
    }

    pub fn worker_status(&self, w: usize) -> (r: WorkerStatus)
        requires
            self.wf(),
            w < self@.size(),
        ensures
            r == self@.workers[w as int],
    {
        self.workers[w]
    }

    /// Queues `job` for the next free worker and returns its ticket. Never
    /// waits for a worker. Once shutdown has begun the job is refused and
    /// dropped, and the pool is left as it was.
    pub fn execute(&mut self, job: J) -> (r: Result<u64, PoolError>)
        requires
            old(self).wf(),
            old(self)@.submitted < u64::MAX,
        ensures
            final(self).wf(),
            match r {
                Ok(t) => {
                    &&& old(self)@.accepts()
                    &&& t == old(self)@.submitted
                    &&& final(self)@ == old(self)@.submit()
                    &&& final(self).queued() == old(self).queued().push(job)
                },
                Err(e) => {
                    &&& !old(self)@.accepts()
                    &&& e == PoolError::Closed
                    &&& final(self)@ == old(self)@
                    &&& final(self).queued() == old(self).queued()
                },
            },
    {
        if self.state != PoolState::Running {
            return Err(PoolError::Closed);
        }
        proof {
            crate::model::lemma_submit_wf(self@);
        }
        let t = self.submitted;
        self.queue.push_back(job);
        self.submitted = self.submitted + 1;
        Ok(t)
    }

    /// Asks the pool to shut down: from now on every `execute` fails, while
    /// the jobs already queued are still handed out. Asking again changes
    /// nothing.
    pub fn shutdown(&mut self)
        requires
            old(self).wf(),
        ensures
            final(self).wf(),
            final(self)@ == old(self)@.shut_down(),
            final(self).queued() == old(self).queued(),
    {
        proof {
            crate::model::lemma_shut_down_wf(self@);
        }
        if self.state == PoolState::Running {
            self.state = PoolState::ShuttingDown;
        }
    }

    /// Worker `w`, waiting, polls the queue. It gets the oldest queued job if
    /// there is one; otherwise it waits while the pool runs, and leaves its
    /// loop once shutdown has begun.
    pub fn next_job(&mut self, w: usize) -> (r: Dispatch<J>)
        requires
            old(self).wf(),
            w < old(self)@.size(),
            old(self)@.workers[w as int] == WorkerStatus::WaitingForJob,
        ensures
            final(self).wf(),
            final(self)@ == old(self)@.poll(w as int),
            match r {
                Dispatch::Run { ticket, job } => {
                    &&& old(self)@.pending() > 0
                    &&& ticket == old(self)@.taken
                    &&& job == old(self).queued()[0]
                    &&& final(self).queued() == old(self).queued().drop_first()
                },
                Dispatch::Wait => {
                    &&& old(self)@.pending() == 0
                    &&& old(self)@.accepts()
                    &&& final(self).queued() == old(self).queued()
                },
                Dispatch::Exit => {
                    &&& old(self)@.pending() == 0
                    &&& !old(self)@.accepts()
                    &&& final(self).queued() == old(self).queued()
                },
            },
    {
        proof {
            crate::model::lemma_poll_wf(self@, w as int);
        }
        match self.queue.pop_front() {
            Some(job) => {
                let ticket = self.taken;
                self.workers.set(w, WorkerStatus::Executing(ticket));
                self.taken = self.taken + 1;
                proof {
                    assert(self.queue@ == old(self).queued().drop_first());
                }
                Dispatch::Run { ticket, job }
            },
            None => {
                if self.state == PoolState::Running {
                    Dispatch::Wait
                } else {
                    self.workers.set(w, WorkerStatus::Terminated);
                    if all_terminated(&self.workers) {
                        self.state = PoolState::Terminated;
                    }
                    Dispatch::Exit
                }
            },
        }
    }

    /// Worker `w` reports that its job ran to completion, whether or not the
    /// job itself met an error of its own; the worker waits again.
    pub fn job_done(&mut self, w: usize)
        requires
            old(self).wf(),
            w < old(self)@.size(),
            is_executing(old(self)@.workers[w as int]),
        ensures
            final(self).wf(),
            final(self)@ == old(self)@.finish(w as int),
            final(self).queued() == old(self).queued(),
    {
        proof {
            crate::model::lemma_finish_wf(self@, w as int);
        }
        let ghost t = crate::model::ticket_of(self.workers@[w as int]);
        self.workers.set(w, WorkerStatus::WaitingForJob);
        self.finished = Ghost(self.finished@.push(t));
    }

    /// Grants the join of worker `w`'s thread: only after shutdown has begun,
    /// and only once per worker, so no thread is joined twice.
    pub fn claim_join(&mut self, w: usize) -> (r: bool)
        requires
            old(self).wf(),
            w < old(self)@.size(),
        ensures
            final(self).wf(),
            r == old(self)@.may_join(w as int),
            final(self)@ == (if r {
                old(self)@.claim_join(w as int)
            } else {
                old(self)@
            }),
            final(self).queued() == old(self).queued(),
    {
        proof {
            crate::model::lemma_claim_join_wf(self@, w as int);
        }
        if self.state != PoolState::Running && !self.joined[w] {
            self.joined.set(w, true);
            true
        } else {
            false
        }
    }
}

/// Whether every worker has left its loop.
fn all_terminated(workers: &Vec<WorkerStatus>) -> (r: bool)
    ensures
        r == PoolModel::all_terminated(workers@),
{
    let mut i: usize = 0;
    while i < workers.len()
        invariant
            i <= workers@.len(),
            forall|k: int| 0 <= k < i ==> workers@[k] == WorkerStatus::Terminated,
        decreases workers@.len() - i,
    {
        if workers[i] != WorkerStatus::Terminated {
            return false;
        }
        i = i + 1;
    }
    true
}

} // verus!
