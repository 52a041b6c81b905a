//! The worker-pool protocol: construction, submission, the worker loop, and
//! graceful shutdown.
//!
//! The pool is modeled as an explicit state machine.  Jobs are identified by
//! the order in which they were accepted: submission `k` receives id `k`.
//! The state records, for each accepted job, whether it is still queued on
//! the job channel or has already been executed, and for each worker whether
//! its thread is still running or has exited.  The central invariant,
//! [`ThreadPool::wf`], says that the execution log followed by the queue is
//! exactly the sequence of accepted ids — from which it follows that no job
//! is ever executed twice, none is lost while the channel is open, and a
//! full drain executes every accepted job exactly once.

use vstd::prelude::*;

verus! {

/// Status of a worker: `Running` while its thread is alive (waiting for a
/// job or executing one), `Exited` once the closed channel has made its
/// receive fail and its thread has returned.  There is no other state and no
/// restart: a worker that exits is never reused.
#[derive(Clone, Copy, PartialEq, Eq, Debug)]
pub enum WorkerStatus {
    Running,
    Exited,
}

impl WorkerStatus {
    /// True while the worker's thread is alive.
    pub fn is_running(self) -> (r: bool)
        ensures
            r == (self is Running),
    {
        match self {
            WorkerStatus::Running => true,
            WorkerStatus::Exited => false,
        }
    }
}

/// A worker: an immutable numeric identity bound to one background thread.
/// The identity is assigned at construction and used only for observability;
/// the thread's progress is summarized by `status`, and `executing` marks
/// the interval during which a delivered job is still running on the
/// worker's thread.
pub struct Worker {
    pub id: usize,
    pub status: WorkerStatus,
    pub executing: bool,
}

impl Worker {
    /// Bring up the worker `id`: its thread starts in the running state,
    /// blocked on the shared consuming end of the job channel, with no job
    /// in hand.
    pub fn new(id: usize) -> (w: Worker)
        ensures
            w.id == id,
            w.status is Running,
            !w.executing,
    {
        Worker { id, status: WorkerStatus::Running, executing: false }
    }
}

/// How many of these workers are executing a job at this instant.
pub open spec fn executing_count(ws: Seq<Worker>) -> int
    decreases ws.len(),
{
    if ws.len() == 0 {
        0
    } else {
        executing_count(ws.drop_last()) + if ws.last().executing {
            1int
        } else {
            0int
        }
    }
}

/// Law: a worker runs at most one job at a time, so at every instant no
/// more jobs are executing than the pool has workers.
pub proof fn lemma_parallelism_bounded(ws: Seq<Worker>)
    ensures
        0 <= executing_count(ws) <= ws.len(),
    decreases ws.len(),
{
    if ws.len() > 0 {
        lemma_parallelism_bounded(ws.drop_last());
    }
}

/// Replacing one worker changes the executing count by that worker's own
/// contribution alone.
proof fn lemma_executing_count_update(ws: Seq<Worker>, i: int, w: Worker)
    requires
        0 <= i < ws.len(),
    ensures
        executing_count(ws.update(i, w)) == executing_count(ws) - (if ws[i].executing {
            1int
        } else {
            0int
        }) + (if w.executing {
            1int
        } else {
            0int
        }),
    decreases ws.len(),
{
    if i == ws.len() - 1 {
        assert(ws.update(i, w).drop_last() =~= ws.drop_last());
    } else {
        assert(ws.update(i, w).drop_last() =~= ws.drop_last().update(i, w));
        lemma_executing_count_update(ws.drop_last(), i, w);
    }
}

/// The misuse conditions the pool rejects: they indicate a logic bug in the
/// caller, not a transient fault, and no recovery is attempted.
#[derive(Clone, Copy, PartialEq, Eq, Debug)]
pub enum PoolError {
    /// Construction was asked for a pool of zero workers.
    ZeroWorkers,
    /// A job was submitted after shutdown had already closed the channel.
    PoolClosed,
}

/// The ids of the first `n` accepted jobs, in acceptance order.
pub open spec fn ids_up_to(n: u64) -> Seq<u64> {
    Seq::new(n as nat, |i: int| i as u64)
}

/// Accepting one more job extends the sequence of accepted ids by its own
/// index.
proof fn lemma_ids_up_to_snoc(n: u64)
    requires
        n < u64::MAX,
    ensures
        ids_up_to((n + 1) as u64) == ids_up_to(n).push(n),
{
    assert(ids_up_to((n + 1) as u64) =~= ids_up_to(n).push(n));
}

/// Appending to the second part of a concatenation appends to the whole.
proof fn lemma_concat_push<T>(a: Seq<T>, b: Seq<T>, x: T)
    ensures
        a + b.push(x) == (a + b).push(x),
{
    assert(a + b.push(x) =~= (a + b).push(x));
}

/// The worker pool: a fixed ordered collection of workers (sized once, never
/// resized) plus the producing end of the job channel.  `sender_open` is
/// true while that producing end is still held; releasing it is the sole
/// termination signal the workers can observe.
pub struct ThreadPool {
    pub workers: Vec<Worker>,
    pub sender_open: bool,
    /// Ids of accepted jobs still waiting on the channel, oldest first.
    pub queue: Vec<u64>,
    /// Ids of jobs already executed, in execution order.
    pub executed: Vec<u64>,
    /// For each entry of `executed`, the id of the worker that ran it.
    pub executors: Vec<usize>,
    /// Number of jobs accepted so far; the next job gets this id.
    pub next_id: u64,
}

impl ThreadPool {
    /// Well-formedness: what construction establishes and every operation
    /// preserves.
    ///
    /// - there is at least one worker, and worker `i` carries id `i + 1`;
    /// - the execution log followed by the queue is exactly the sequence of
    ///   accepted ids, so each accepted job is in exactly one place;
    /// - each executed job is attributed to one of the pool's workers;
    /// - a worker that has exited is no longer executing anything;
    /// - a worker can only have exited after the channel closed with an
    ///   empty queue — and from then on nothing can be enqueued, so the
    ///   queue stays empty.
    pub open spec fn wf(self) -> bool {
        &&& self.workers@.len() >= 1
        &&& forall|i: int|
            0 <= i < self.workers@.len() ==> (#[trigger] self.workers@[i]).id == i + 1
        &&& forall|i: int|
            0 <= i < self.workers@.len() ==> ((#[trigger] self.workers@[i]).status is Exited
                ==> !self.workers@[i].executing)
        &&& self.executed@ + self.queue@ == ids_up_to(self.next_id)
        &&& self.executors@.len() == self.executed@.len()
        &&& forall|k: int|
            0 <= k < self.executors@.len() ==> 1 <= #[trigger] self.executors@[k]
                <= self.workers@.len()
        &&& (exists|i: int|
            0 <= i < self.workers@.len() && (#[trigger] self.workers@[i]).status is Exited)
            ==> (!self.sender_open && self.queue@.len() == 0)
    }

    /// True once every worker's thread has exited.
    pub open spec fn all_exited(self) -> bool {
        forall|i: int|
            0 <= i < self.workers@.len() ==> (#[trigger] self.workers@[i]).status is Exited
    }

    /// Create a pool of `size` workers, each spawned synchronously and bound
    /// to the shared consuming end of a fresh job channel.  A size of zero
    /// is a programmer error and is excluded here; [`ThreadPool::try_new`]
    /// reports it as a value instead.
    pub fn new(size: usize) -> (pool: ThreadPool)
        requires
            1 <= size,
        ensures
            pool.wf(),
            pool.workers@.len() == size,
            pool.sender_open,
            pool.queue@.len() == 0,
            pool.executed@.len() == 0,
            pool.next_id == 0,
            forall|i: int|
                0 <= i < size ==> (#[trigger] pool.workers@[i]).status is Running
                    && !pool.workers@[i].executing,
    {
        let mut workers: Vec<Worker> = Vec::new();
        let mut made: usize = 0;
        while made < size
            invariant
                made <= size,
                workers@.len() == made,
                forall|i: int|
                    0 <= i < workers@.len() ==> (#[trigger] workers@[i]).id == i + 1
                        && workers@[i].status is Running && !workers@[i].executing,
            decreases size - made,
        {
            workers.push(Worker::new(made + 1));
            made = made + 1;
        }
        let pool = ThreadPool {
            workers,
            sender_open: true,
            queue: Vec::new(),
            executed: Vec::new(),
            executors: Vec::new(),
            next_id: 0,
        };
        proof {
            assert(pool.executed@ + pool.queue@ =~= ids_up_to(0));
        }
        pool
    }

    /// Construction with the zero-size misuse condition reported as a value:
    /// a pool is returned exactly when `size >= 1`, and a request for zero
    /// workers fails before any worker is brought up.
    pub fn try_new(size: usize) -> (r: Result<ThreadPool, PoolError>)
        ensures
            r is Ok <==> size >= 1,
            size == 0 ==> r == Result::<ThreadPool, PoolError>::Err(PoolError::ZeroWorkers),
            size >= 1 ==> ({
                &&& r matches Ok(pool)
                &&& pool.wf()
                &&& pool.workers@.len() == size
                &&& pool.sender_open
                &&& pool.queue@.len() == 0
                &&& pool.executed@.len() == 0
                &&& pool.next_id == 0
                &&& forall|i: int|
                    0 <= i < size ==> (#[trigger] pool.workers@[i]).status is Running
                        && !pool.workers@[i].executing
            }),
    {
        if size == 0 {
            Err(PoolError::ZeroWorkers)
        } else {
            Ok(ThreadPool::new(size))
        }
    }

    /// Submit one job: it is accepted under the next id and enqueued on the
    /// job channel.  Submission returns once the job is enqueued, not once
    /// it is executed.  Submitting to a pool whose channel has been closed
    /// is a programmer error and is excluded here;
    /// [`ThreadPool::try_execute`] reports it as a value instead.
    pub fn execute(&mut self) -> (id: u64)
        requires
            old(self).wf(),
            old(self).sender_open,
            old(self).next_id < u64::MAX,
        ensures
            final(self).wf(),
            id == old(self).next_id,
            final(self).next_id == old(self).next_id + 1,
            final(self).queue@ == old(self).queue@.push(id),
            final(self).executed@ == old(self).executed@,
            final(self).executors@ == old(self).executors@,
            final(self).workers@ == old(self).workers@,
            final(self).sender_open,
    {
        let id = self.next_id;
        self.queue.push(id);
        self.next_id = self.next_id + 1;
        proof {
            lemma_concat_push(old(self).executed@, old(self).queue@, id);
            lemma_ids_up_to_snoc(id);
        }
        id
    }

    /// Submission with the closed-channel misuse condition reported as a
    /// value: the job is accepted exactly when the producing end is still
    /// open, and a rejected job is not enqueued — nothing about the pool
    /// changes.
    pub fn try_execute(&mut self) -> (r: Result<u64, PoolError>)
        requires
            old(self).wf(),
            old(self).next_id < u64::MAX,
        ensures
            final(self).wf(),
            r is Ok <==> old(self).sender_open,
            old(self).sender_open ==> ({
                &&& r == Result::<u64, PoolError>::Ok(old(self).next_id)
                &&& final(self).next_id == old(self).next_id + 1
                &&& final(self).queue@ == old(self).queue@.push(old(self).next_id)
                &&& final(self).executed@ == old(self).executed@
                &&& final(self).executors@ == old(self).executors@
                &&& final(self).workers@ == old(self).workers@
                &&& final(self).sender_open
            }),
            !old(self).sender_open ==> r == Result::<u64, PoolError>::Err(PoolError::PoolClosed)
                && *final(self) == *old(self),
    {
        if self.sender_open {
            Ok(self.execute())
        } else {
            Err(PoolError::PoolClosed)
        }
    }

    /// Release the producing end of the job channel.  After this, pending
    /// and future receives fail once the queue is empty, which is the only
    /// signal that lets a worker exit.  Idempotent: closing an already
    /// closed channel changes nothing.
    pub fn close(&mut self)
        requires
            old(self).wf(),
        ensures
            final(self).wf(),
            !final(self).sender_open,
            final(self).queue@ == old(self).queue@,
            final(self).executed@ == old(self).executed@,
            final(self).executors@ == old(self).executors@,
            final(self).workers@ == old(self).workers@,
            final(self).next_id == old(self).next_id,
    {
        self.sender_open = false;
    }

    /// The dequeue half of a worker's loop iteration: the job at the head
    /// of the queue is delivered to worker `i` alone — the channel's
    /// internal lock covers only this step — and starts executing on the
    /// worker's thread.
    pub fn worker_begin(&mut self, i: usize) -> (job: u64)
        requires
            old(self).wf(),
            i < old(self).workers@.len(),
            old(self).workers@[i as int].status is Running,
            !old(self).workers@[i as int].executing,
            old(self).queue@.len() > 0,
        ensures
            final(self).wf(),
            job == old(self).queue@[0],
            final(self).queue@ == old(self).queue@.drop_first(),
            final(self).executed@ == old(self).executed@.push(job),
            final(self).executors@ == old(self).executors@.push(old(self).workers@[i as int].id),
            final(self).workers@.len() == old(self).workers@.len(),
            final(self).workers@[i as int].executing,
            final(self).workers@[i as int].status == old(self).workers@[i as int].status,
            final(self).workers@[i as int].id == old(self).workers@[i as int].id,
            forall|k: int|
                0 <= k < old(self).workers@.len() && k != i ==> final(self).workers@[k] == old(
                    self,
                ).workers@[k],
            final(self).sender_open == old(self).sender_open,
            final(self).next_id == old(self).next_id,
            executing_count(final(self).workers@) == executing_count(old(self).workers@) + 1,
    {
        let job = self.queue.remove(0);
        self.executed.push(job);
        let prev = self.workers.remove(i);
        self.executors.push(prev.id);
        self.workers.insert(i, Worker { id: prev.id, status: prev.status, executing: true });
        proof {
            let w = (Worker {
                id: old(self).workers@[i as int].id,
                status: old(self).workers@[i as int].status,
                executing: true,
            });
            assert(self.workers@ =~= old(self).workers@.update(i as int, w));
            lemma_executing_count_update(old(self).workers@, i as int, w);
            assert(old(self).executed@.push(old(self).queue@[0]) + old(
                self,
            ).queue@.drop_first() =~= old(self).executed@ + old(self).queue@);
            assert(old(self).queue@.drop_first() =~= old(self).queue@.remove(0));
        }
        job
    }

    /// The completion half: the job running on worker `i` finishes, and the
    /// worker loops back to waiting on the channel.  Nothing about the job's
    /// outcome is inspected.
    pub fn worker_finish(&mut self, i: usize)
        requires
            old(self).wf(),
            i < old(self).workers@.len(),
            old(self).workers@[i as int].executing,
        ensures
            final(self).wf(),
            final(self).queue@ == old(self).queue@,
            final(self).executed@ == old(self).executed@,
            final(self).executors@ == old(self).executors@,
            final(self).workers@.len() == old(self).workers@.len(),
            !final(self).workers@[i as int].executing,
            final(self).workers@[i as int].status == old(self).workers@[i as int].status,
            final(self).workers@[i as int].id == old(self).workers@[i as int].id,
            forall|k: int|
                0 <= k < old(self).workers@.len() && k != i ==> final(self).workers@[k] == old(
                    self,
                ).workers@[k],
            final(self).sender_open == old(self).sender_open,
            final(self).next_id == old(self).next_id,
            executing_count(final(self).workers@) == executing_count(old(self).workers@) - 1,
    {
        let prev = self.workers.remove(i);
        self.workers.insert(i, Worker { id: prev.id, status: prev.status, executing: false });
        proof {
            let w = (Worker {
                id: old(self).workers@[i as int].id,
                status: old(self).workers@[i as int].status,
                executing: false,
            });
            assert(self.workers@ =~= old(self).workers@.update(i as int, w));
            lemma_executing_count_update(old(self).workers@, i as int, w);
        }
    }

    /// One full iteration of worker `i`'s loop: a blocking receive on the
    /// shared consuming end, then either the delivered job run to
    /// completion, or — once the producing end has been released and the
    /// queue is empty — the failing receive that makes the worker exit.
    /// With an empty queue and an open channel the worker stays blocked,
    /// which the precondition reflects.
    pub fn worker_step(&mut self, i: usize) -> (r: Option<u64>)
        requires
            old(self).wf(),
            i < old(self).workers@.len(),
            old(self).workers@[i as int].status is Running,
            !old(self).workers@[i as int].executing,
            old(self).queue@.len() > 0 || !old(self).sender_open,
        ensures
            final(self).wf(),
            final(self).workers@.len() == old(self).workers@.len(),
            final(self).sender_open == old(self).sender_open,
            final(self).next_id == old(self).next_id,
            old(self).queue@.len() > 0 ==> ({
                &&& r == Some(old(self).queue@[0])
                &&& final(self).queue@ == old(self).queue@.drop_first()
                &&& final(self).executed@ == old(self).executed@.push(old(self).queue@[0])
                &&& final(self).executors@ == old(self).executors@.push(
                    old(self).workers@[i as int].id,
                )
                &&& final(self).workers@ == old(self).workers@
            }),
            old(self).queue@.len() == 0 ==> ({
                &&& r is None
                &&& final(self).queue@ == old(self).queue@
                &&& final(self).executed@ == old(self).executed@
                &&& final(self).executors@ == old(self).executors@
                &&& final(self).workers@[i as int].status is Exited
                &&& final(self).workers@[i as int].id == old(self).workers@[i as int].id
                &&& forall|k: int|
                    0 <= k < old(self).workers@.len() && k != i
                        ==> final(self).workers@[k] == old(self).workers@[k]
            }),
    {
        if self.queue.len() > 0 {
            // The lock around the dequeue is released after the take; the
            // job then runs to completion on this worker's thread while
            // other workers keep dequeuing.
            let job = self.worker_begin(i);
            self.worker_finish(i);
            proof {
                assert(self.workers@ =~= old(self).workers@);
            }
            Some(job)
        } else {
            // The channel is closed and empty: the receive fails and the
            // worker's thread returns.
            let prev = self.workers.remove(i);
            self.workers.insert(
                i,
                Worker { id: prev.id, status: WorkerStatus::Exited, executing: false },
            );
            proof {
                assert(self.workers@ =~= old(self).workers@.update(
                    i as int,
                    (Worker {
                        id: old(self).workers@[i as int].id,
                        status: WorkerStatus::Exited,
                        executing: false,
                    }),
                ));
            }
            None
        }
    }

    /// Graceful shutdown: release the producing end of the channel first,
    /// unconditionally, then wait for every worker in construction order to
    /// finish.  Closing strictly before joining is what lets each blocked
    /// receive fail instead of deadlocking.  The call returns only once the
    /// queue has fully drained — every job accepted before the close has
    /// been executed — and every worker has exited.  Idempotent: shutting
    /// down an already stopped pool changes nothing and returns promptly.
    pub fn shutdown(&mut self)
        requires
            old(self).wf(),
        ensures
            final(self).wf(),
            !final(self).sender_open,
            final(self).queue@.len() == 0,
            final(self).workers@.len() == old(self).workers@.len(),
            final(self).all_exited(),
            forall|i: int|
                0 <= i < final(self).workers@.len()
                    ==> !(#[trigger] final(self).workers@[i]).executing,
            final(self).next_id == old(self).next_id,
            final(self).executed@ == old(self).executed@ + old(self).queue@,
            final(self).executed@ == ids_up_to(old(self).next_id),
    {
        self.close();
        let mut i: usize = 0;
        while i < self.workers.len()
            invariant
                self.wf(),
                !self.sender_open,
                i <= self.workers@.len(),
                self.workers@.len() == old(self).workers@.len(),
                self.next_id == old(self).next_id,
                self.executed@ + self.queue@ == old(self).executed@ + old(self).queue@,
                forall|k: int| 0 <= k < i ==> (#[trigger] self.workers@[k]).status is Exited,
            decreases self.workers@.len() - i,
        {
            while self.workers[i].status.is_running()
                invariant
                    self.wf(),
                    !self.sender_open,
                    i < self.workers@.len(),
                    self.workers@.len() == old(self).workers@.len(),
                    self.next_id == old(self).next_id,
                    self.executed@ + self.queue@ == old(self).executed@ + old(self).queue@,
                    forall|k: int| 0 <= k < i ==> (#[trigger] self.workers@[k]).status is Exited,
                decreases self.queue@.len() + (if self.workers@[i as int].executing {
                    1int
                } else {
                    0int
                }) + (if self.workers@[i as int].status is Running {
                    1int
                } else {
                    0int
                }),
            {
                if self.workers[i].executing {
                    // A job is still running on this worker: joining waits
                    // for it to finish first.
                    self.worker_finish(i);
                } else {
                    self.worker_step(i);
                }
            }
            i = i + 1;
        }
        proof {
            // The first worker has exited, so by well-formedness the queue
            // has fully drained.
            assert(self.workers@[0].status is Exited);
            assert(self.executed@ =~= self.executed@ + self.queue@);
            assert(self.executed@ == ids_up_to(self.next_id));
        }
    }
}

/// Law: in every reachable pool state, the execution log contains each job
/// at most once, and each logged job is attributed to exactly one of the
/// pool's workers — no two workers ever run the same job, and no single
/// worker runs a job twice.
pub proof fn lemma_no_duplicate_execution(pool: ThreadPool)
    requires
        pool.wf(),
    ensures
        forall|a: int, b: int|
            0 <= a < b < pool.executed@.len() ==> pool.executed@[a] != pool.executed@[b],
        forall|k: int|
            0 <= k < pool.executed@.len() ==> 1 <= #[trigger] pool.executors@[k]
                <= pool.workers@.len(),
{
    assert forall|a: int, b: int|
        0 <= a < b < pool.executed@.len() implies pool.executed@[a] != pool.executed@[b] by {
        assert((pool.executed@ + pool.queue@).len() == ids_up_to(pool.next_id).len());
        assert(ids_up_to(pool.next_id).len() == pool.next_id);
        assert(pool.executed@[a] == (pool.executed@ + pool.queue@)[a]);
        assert(pool.executed@[b] == (pool.executed@ + pool.queue@)[b]);
        assert(ids_up_to(pool.next_id)[a] == a as u64);
        assert(ids_up_to(pool.next_id)[b] == b as u64);
    }
}

/// Law: no accepted job is ever lost: in every reachable pool state, each
/// job accepted so far is either already executed or still waiting on the
/// queue.
pub proof fn lemma_no_job_lost(pool: ThreadPool)
    requires
        pool.wf(),
    ensures
        forall|j: u64|
            j < pool.next_id ==> pool.executed@.contains(j) || pool.queue@.contains(j),
{
    assert forall|j: u64|
        j < pool.next_id implies pool.executed@.contains(j) || pool.queue@.contains(j) by {
        let e = pool.executed@.len() as int;
        assert((pool.executed@ + pool.queue@).len() == ids_up_to(pool.next_id).len());
        assert(ids_up_to(pool.next_id).len() == pool.next_id);
        assert(e + pool.queue@.len() == pool.next_id);
        assert((pool.executed@ + pool.queue@)[j as int] == ids_up_to(pool.next_id)[j as int]);
        assert((pool.executed@ + pool.queue@)[j as int] == j);
        if (j as int) < e {
            assert(pool.executed@[j as int] == j);
            assert(pool.executed@.contains(j));
        } else {
            assert(pool.queue@[j as int - e] == j);
            assert(pool.queue@.contains(j));
        }
    }
}

/// Law: once the queue has drained, the pool has executed exactly the jobs
/// it accepted — `M` submissions give `M` executions, each job exactly
/// once, in acceptance order.
pub proof fn lemma_drained_pool_executed_each_job_once(pool: ThreadPool)
    requires
        pool.wf(),
        pool.queue@.len() == 0,
    ensures
        pool.executed@.len() == pool.next_id,
        forall|j: int| 0 <= j < pool.executed@.len() ==> pool.executed@[j] == j as u64,
        forall|a: int, b: int|
            0 <= a < b < pool.executed@.len() ==> pool.executed@[a] != pool.executed@[b],
{
    assert(pool.executed@ =~= pool.executed@ + pool.queue@);
    assert forall|j: int| 0 <= j < pool.executed@.len() implies pool.executed@[j] == j as u64 by {
        assert(ids_up_to(pool.next_id)[j] == j as u64);
    }
    lemma_no_duplicate_execution(pool);
}

} // verus!
