//! The decision core of a fixed-size worker pool.
//!
//! `PoolCore` holds the work queue and decides what a submission, a disposal and
//! a worker's request for work do. Threads, locking and blocking are left to the
//! caller, which keeps one `PoolCore` behind a lock shared by all workers.
use std::collections::VecDeque;
use vstd::prelude::*;

verus! {

/// What travels through the work queue: a job to run, or the signal for one
/// worker to stop.
pub enum Message<J> {
    NewJob(J),
    Terminate,
}

/// What a worker does next after asking the pool for work.
pub enum WorkerStep<J> {
    /// Run this job to completion, then ask again.
    Run(J),
    /// Leave the loop for good.
    Exit,
    /// Nothing is queued: block until something is, then ask again.
    Wait,
}

/// Why the pool refused an operation.
#[derive(Debug, PartialEq, Eq, Structural)]
pub enum PoolError {
    /// A pool needs at least one worker.
    ZeroSize,
    /// The pool was already disposed of.
    Disposed,
}

/// The queue and the counters of a worker pool of fixed size.
pub struct PoolCore<J> {
    size: usize,
    queue: VecDeque<Message<J>>,
    disposed: bool,
    exited: usize,
    /// Every message ever enqueued, in order.
    sent: Ghost<Seq<Message<J>>>,
    /// Every message handed to a worker, in order.
    handed: Ghost<Seq<Message<J>>>,
    /// How many jobs were submitted.
    jobs: Ghost<nat>,
}

/// `n` copies of the stop signal.
pub open spec fn terminates<J>(n: nat) -> Seq<Message<J>> {
    Seq::new(n, |i: int| Message::Terminate)
}

impl<J> PoolCore<J> {
    /// The number of workers the pool was made for.
    pub closed spec fn spec_size(&self) -> nat {
        self.size as nat
    }

    /// Whether the pool has been disposed of.
    pub closed spec fn spec_disposed(&self) -> bool {
        self.disposed
    }

    /// How many workers have been told to stop.
    pub closed spec fn spec_exited(&self) -> nat {
        self.exited as nat
    }

    /// The messages waiting in the queue, front first.
    pub closed spec fn queued(&self) -> Seq<Message<J>> {
        self.queue@
    }

    /// Every message ever enqueued, in order.
    pub closed spec fn sent(&self) -> Seq<Message<J>> {
        self.sent@
    }

    /// Every message handed to a worker, in order.
    pub closed spec fn handed(&self) -> Seq<Message<J>> {
        self.handed@
    }

    /// How many jobs were submitted.
    pub closed spec fn submitted(&self) -> nat {
        self.jobs@
    }

    /// The pool's invariant. Nothing is lost or duplicated: what was handed out
    /// followed by what is queued is exactly what was sent. The jobs come first;
    /// disposal appends one stop signal per worker after them and nothing after
    /// that; each stop signal handed out stops one worker.
    pub open spec fn wf(&self) -> bool {
        &&& self.spec_size() > 0
        &&& self.handed() + self.queued() == self.sent()
        &&& self.sent().len() == self.submitted() + if self.spec_disposed() {
            self.spec_size()
        } else {
            0
        }
        &&& forall|i: int|
            0 <= i < self.submitted() ==> (#[trigger] self.sent()[i]) is NewJob
        &&& forall|i: int|
            self.submitted() <= i < self.sent().len() ==> (#[trigger] self.sent()[i]) is Terminate
        &&& self.spec_exited() == if self.handed().len() > self.submitted() {
            (self.handed().len() - self.submitted()) as nat
        } else {
            0
        }
    }

    /// Makes the core of a pool of `size` workers, with an empty queue.
    /// Fails with `ZeroSize` exactly when `size` is zero.
    pub fn new(size: usize) -> (r: Result<PoolCore<J>, PoolError>)
        ensures
            size == 0 <==> r == Err::<PoolCore<J>, PoolError>(PoolError::ZeroSize),
            size > 0 ==> r is Ok,
            r is Ok ==> {
                let p = r->Ok_0;
                &&& p.wf()
                &&& p.spec_size() == size
                &&& !p.spec_disposed()
                &&& p.spec_exited() == 0
                &&& p.submitted() == 0
                &&& p.sent() == Seq::<Message<J>>::empty()
                &&& p.handed() == Seq::<Message<J>>::empty()
            },
    {
        if size == 0 {
            return Err(PoolError::ZeroSize);
        }
        let p = PoolCore {
            size,
            queue: VecDeque::new(),
            disposed: false,
            exited: 0,
            sent: Ghost(Seq::empty()),
            handed: Ghost(Seq::empty()),
            jobs: Ghost(0),
        };
        proof {
            assert(p.handed() + p.queued() =~= p.sent());
        }
        Ok(p)
    }
    /// Queues `job` for some worker. Fails with `Disposed`, changing nothing,
    /// exactly when the pool was already disposed of.
    pub fn execute(&mut self, job: J) -> (r: Result<(), PoolError>)
        requires
            old(self).wf(),
        ensures
            final(self).wf(),
            old(self).spec_disposed() <==> r == Err::<(), PoolError>(PoolError::Disposed),
            !old(self).spec_disposed() ==> r is Ok,
            old(self).spec_disposed() ==> *final(self) == *old(self),
            r is Ok ==> {
                &&& final(self).queued() == old(self).queued().push(Message::NewJob(job))
                &&& final(self).sent() == old(self).sent().push(Message::NewJob(job))
                &&& final(self).submitted() == old(self).submitted() + 1
                &&& final(self).handed() == old(self).handed()
                &&& final(self).spec_size() == old(self).spec_size()
                &&& final(self).spec_exited() == old(self).spec_exited()
                &&& !final(self).spec_disposed()
            },
    {
        if self.disposed {
            return Err(PoolError::Disposed);
        }
        proof {
            self.sent@ = self.sent@.push(Message::NewJob(job));
            self.jobs@ = self.jobs@ + 1;
        }
        self.queue.push_back(Message::NewJob(job));
        proof {
            assert(self.handed() + self.queued() =~= self.sent());
            assert forall|i: int| 0 <= i < self.submitted() implies (#[trigger] self.sent()[i]) is NewJob by {
                if i < self.submitted() - 1 {
                    assert(old(self).sent()[i] is NewJob);
                }
            }
        }
        Ok(())
    }

    /// Starts the shutdown: queues one stop signal per worker, behind every job
    /// already queued. Fails with `Disposed`, changing nothing, exactly when this
    /// was done before; the pool accepts no job afterwards.
    pub fn dispose(&mut self) -> (r: Result<(), PoolError>)
        requires
            old(self).wf(),
        ensures
            final(self).wf(),
            old(self).spec_disposed() <==> r == Err::<(), PoolError>(PoolError::Disposed),
            !old(self).spec_disposed() ==> r is Ok,
            old(self).spec_disposed() ==> *final(self) == *old(self),
            r is Ok ==> {
                &&& final(self).queued() == old(self).queued() + terminates(old(self).spec_size())
                &&& final(self).sent() == old(self).sent() + terminates(old(self).spec_size())
                &&& final(self).submitted() == old(self).submitted()
                &&& final(self).handed() == old(self).handed()
                &&& final(self).spec_size() == old(self).spec_size()
                &&& final(self).spec_exited() == old(self).spec_exited()
                &&& final(self).spec_disposed()
            },
    {
        if self.disposed {
            return Err(PoolError::Disposed);
        }
        let mut k: usize = 0;
        while k < self.size
            invariant
                k <= self.size,
                self.size == old(self).size,
                self.exited == old(self).exited,
                !self.disposed,
                self.handed@ == old(self).handed@,
                self.jobs@ == old(self).jobs@,
                self.queue@ == old(self).queue@ + terminates::<J>(k as nat),
                self.sent@ == old(self).sent@ + terminates::<J>(k as nat),
            decreases self.size - k,
        {
            proof {
                self.sent@ = self.sent@.push(Message::Terminate);
                assert(old(self).sent@ + terminates::<J>(k as nat + 1) =~= self.sent@);
            }
            self.queue.push_back(Message::Terminate);
            proof {
                assert(old(self).queue@ + terminates::<J>(k as nat + 1) =~= self.queue@);
            }
            k = k + 1;
        }
        self.disposed = true;
        proof {
            assert(self.handed() + self.queued() =~= self.sent()) by {
                assert(old(self).handed() + old(self).queued() == old(self).sent());
            }
            assert forall|i: int| 0 <= i < self.submitted() implies (#[trigger] self.sent()[i]) is NewJob by {
                assert(old(self).sent()[i] is NewJob);
            }
            assert forall|i: int| self.submitted() <= i < self.sent().len() implies (#[trigger] self.sent()[i]) is Terminate by {
            }
        }
        Ok(())
    }

    /// A worker asks for work. The front message of the queue is taken and
    /// handed to it: a job becomes `Run`, a stop signal becomes `Exit` and
    /// counts one more stopped worker. With an empty queue the answer is `Wait`
    /// and nothing changes.
    pub fn next_step(&mut self) -> (r: WorkerStep<J>)
        requires
            old(self).wf(),
        ensures
            final(self).wf(),
            final(self).sent() == old(self).sent(),
            final(self).submitted() == old(self).submitted(),
            final(self).spec_size() == old(self).spec_size(),
            final(self).spec_disposed() == old(self).spec_disposed(),
            old(self).queued().len() == 0 <==> r is Wait,
            r is Wait ==> {
                &&& final(self).queued() == old(self).queued()
                &&& final(self).handed() == old(self).handed()
                &&& final(self).spec_exited() == old(self).spec_exited()
            },
            !(r is Wait) ==> {
                &&& final(self).queued() == old(self).queued().drop_first()
                &&& final(self).handed() == old(self).handed().push(old(self).queued()[0])
            },
            match r {
                WorkerStep::Run(j) => old(self).queued()[0] == Message::NewJob(j)
                    && final(self).spec_exited() == old(self).spec_exited(),
                WorkerStep::Exit => old(self).queued()[0] is Terminate
                    && final(self).spec_exited() == old(self).spec_exited() + 1,
                WorkerStep::Wait => true,
            },
    {
        proof {
            if self.queue@.len() > 0 {
                assert(self.sent()[self.handed().len() as int] == self.queue@[0]);
            }
        }
        let ghost before = self.queue@;
        match self.queue.pop_front() {
            None => WorkerStep::Wait,
            Some(Message::NewJob(j)) => {
                proof {
                    self.handed@ = self.handed@.push(Message::NewJob(j));
                    assert(self.handed() + self.queued() =~= self.sent()) by {
                        assert(old(self).handed() + before == old(self).sent());
                    }
                    assert(old(self).handed().len() < old(self).submitted()) by {
                        let ix = old(self).handed().len() as int;
                        assert(old(self).sent()[ix] == before[0]);
                    }
                }
                WorkerStep::Run(j)
            },
            Some(Message::Terminate) => {
                proof {
                    self.handed@ = self.handed@.push(Message::Terminate);
                    assert(self.handed() + self.queued() =~= self.sent()) by {
                        assert(old(self).handed() + before == old(self).sent());
                    }
                    assert(old(self).handed().len() >= old(self).submitted()) by {
                        let ix = old(self).handed().len() as int;
                        assert(old(self).sent()[ix] == before[0]);
                    }
                }
                self.exited = self.exited + 1;
                WorkerStep::Exit
            },
        }
    }
    /// The number of workers the pool was made for.
    pub fn size(&self) -> (r: usize)
        ensures
            r == self.spec_size(),
    {
        self.size
    }

    /// Whether the pool has been disposed of.
    pub fn is_disposed(&self) -> (r: bool)
        ensures
            r == self.spec_disposed(),
    {
        self.disposed
    }

    /// How many workers have been told to stop.
    pub fn exited(&self) -> (r: usize)
        ensures
            r == self.spec_exited(),
    {
        self.exited
    }

    /// Nothing is lost or duplicated: at every moment the messages handed to
    /// workers, followed by those still queued, are exactly the messages sent,
    /// in order; and no more workers stop than the pool has.
    pub proof fn lemma_no_loss_no_duplication(&self)
        requires
            self.wf(),
        ensures
            self.handed() + self.queued() == self.sent(),
            self.spec_exited() <= self.spec_size(),
    {
    }

    /// No worker is told to stop while a job is still waiting: once a stop
    /// signal has been handed out, every submitted job has been handed out.
    pub proof fn lemma_stop_after_jobs(&self)
        requires
            self.wf(),
            self.spec_exited() > 0,
        ensures
            self.handed().len() > self.submitted(),
            forall|i: int| 0 <= i < self.queued().len() ==> (#[trigger] self.queued()[i]) is Terminate,
    {
        assert forall|i: int| 0 <= i < self.queued().len() implies (#[trigger] self.queued()[i]) is Terminate by {
            assert(self.queued()[i] == self.sent()[self.handed().len() + i]);
        }
    }

    /// Shutdown cannot stall: after disposal, while some worker has not been
    /// told to stop, a message is waiting for it, so a worker asking for work
    /// is never told to wait.
    pub proof fn lemma_disposed_never_waits(&self)
        requires
            self.wf(),
            self.spec_disposed(),
            self.spec_exited() < self.spec_size(),
        ensures
            self.queued().len() > 0,
            self.queued().last() is Terminate,
    {
        let n = self.sent().len() as int;
        assert(self.sent()[n - 1] is Terminate);
        assert(self.queued().last() == self.sent()[n - 1]);
    }

    /// A disposed pool that was given no job holds exactly one stop signal
    /// for each worker not yet stopped.
    pub proof fn lemma_disposed_without_jobs(&self)
        requires
            self.wf(),
            self.spec_disposed(),
            self.submitted() == 0,
        ensures
            self.queued() == terminates::<J>((self.spec_size() - self.spec_exited()) as nat),
    {
        let t = terminates::<J>((self.spec_size() - self.spec_exited()) as nat);
        assert forall|i: int| 0 <= i < self.queued().len() implies self.queued()[i] == t[i] by {
            assert(self.queued()[i] == self.sent()[self.handed().len() + i]);
        }
        assert(self.queued() =~= t);
    }

    /// After disposal the queue holds exactly the jobs not yet handed out and
    /// one stop signal per worker not yet stopped. So workers that keep asking
    /// for work until told to exit drain it, and every worker has stopped
    /// exactly when the queue is empty.
    pub proof fn lemma_disposed_drains(&self)
        requires
            self.wf(),
            self.spec_disposed(),
        ensures
            self.queued().len() + self.handed().len() == self.submitted() + self.spec_size(),
            self.spec_exited() == self.spec_size() <==> self.queued().len() == 0,
    {
        assert(self.handed().len() + self.queued().len() == self.sent().len());
    }

    /// Once every worker has been told to stop, the queue is empty and every
    /// message sent, each job included, was handed to exactly one worker, at
    /// its own place in the order of submission.
    pub proof fn lemma_shutdown_ran_every_job(&self)
        requires
            self.wf(),
            self.spec_disposed(),
            self.spec_exited() == self.spec_size(),
        ensures
            self.queued().len() == 0,
            self.handed() == self.sent(),
            self.handed().len() == self.submitted() + self.spec_size(),
            forall|i: int| 0 <= i < self.submitted() ==> (#[trigger] self.handed()[i]) is NewJob,
    {
        assert(self.handed() =~= self.sent());
    }
}

} // verus!
