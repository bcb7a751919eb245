use crate::channel::{Channel, Recv, SendError};
use vstd::prelude::*;

verus! {

/// What one worker of the pool is doing.
#[derive(PartialEq, Eq, Structural, Clone, Copy, Debug)]
pub enum WorkerState {
    /// Blocked on the channel, ready to take a job.
    Waiting,
    /// Executing the job with this identifier.
    Running(u64),
    /// Observed the closed channel and left its loop.
    Exited,
}

/// What a worker that asks for work is told to do next.
pub enum Action<T> {
    /// Execute this job, which carries this identifier.
    Run(u64, T),
    /// Nothing is queued: block until a job arrives or the pool closes.
    Wait,
    /// The pool is closed: leave the loop.
    Exit,
}

/// The decisions of a fixed-size worker pool.
///
/// The pool owns the sending side of one channel; its workers, numbered from
/// zero, share the receiving side. Each submitted job receives the next
/// identifier, so identifiers follow submission order. A worker that asks for
/// work is handed the oldest queued job; once the pool is shut down the jobs
/// still queued are discarded and every worker that asks is told to exit,
/// while the jobs already running are allowed to finish.
///
/// A fault inside a job is caught at the job's boundary: the worker reports
/// the job as finished and keeps serving, so a fault never costs capacity.
pub struct Dispatcher<T> {
    channel: Channel<(u64, T)>,
    workers: Vec<WorkerState>,
    next_id: u64,
    accepted: u64,
    jobs: Ghost<Seq<T>>,
    done: Ghost<Set<u64>>,
}

impl<T> Dispatcher<T> {
    /// Every job ever submitted; a job's identifier is its index here.
    pub closed spec fn jobs(&self) -> Seq<T> {
        self.jobs@
    }

    /// How many jobs have been handed to workers: exactly the identifiers
    /// below this number.
    pub closed spec fn accepted(&self) -> nat {
        self.accepted as nat
    }

    /// Whether the pool still accepts and hands out jobs.
    pub closed spec fn is_open(&self) -> bool {
        self.channel.is_open()
    }

    /// The state of each worker, indexed by worker number.
    pub closed spec fn workers(&self) -> Seq<WorkerState> {
        self.workers@
    }

    /// The identifiers of the jobs that ran to completion.
    pub closed spec fn done(&self) -> Set<u64> {
        self.done@
    }

    /// Job `id` waits in the channel for a worker.
    pub open spec fn is_queued(&self, id: nat) -> bool {
        self.is_open() && self.accepted() <= id < self.jobs().len()
    }

    /// Job `id` was still queued when the pool was shut down; it never runs.
    pub open spec fn is_discarded(&self, id: nat) -> bool {
        !self.is_open() && self.accepted() <= id < self.jobs().len()
    }

    /// Worker `w` is executing job `id`.
    pub open spec fn runs(&self, w: int, id: nat) -> bool {
        0 <= w < self.workers().len() && self.workers()[w] == WorkerState::Running(id as u64)
    }

    pub open spec fn is_running(&self, id: nat) -> bool {
        exists|w: int| self.runs(w, id)
    }

    pub open spec fn is_done(&self, id: nat) -> bool {
        id <= u64::MAX && self.done().contains(id as u64)
    }

    pub closed spec fn wf(&self) -> bool {
        &&& self.channel.wf()
        &&& self.workers@.len() > 0
        &&& self.accepted <= self.next_id
        &&& self.jobs@.len() == self.next_id
        &&& self.channel.is_open() ==> self.channel.pending().len() == self.next_id - self.accepted
        &&& forall|i: int|
            0 <= i < self.channel.pending().len() ==> #[trigger] self.channel.pending()[i] == (
            (self.accepted + i) as u64,
            self.jobs@[self.accepted + i],
        )
        &&& forall|w: int|
            0 <= w < self.workers@.len() && (#[trigger] self.workers@[w] is Running) ==> {
                let id = self.workers@[w]->Running_0;
                id < self.accepted && !self.done@.contains(id)
            }
        &&& forall|w1: int, w2: int|
            0 <= w1 < self.workers@.len() && 0 <= w2 < self.workers@.len()
                && (#[trigger] self.workers@[w1] is Running)
                && (#[trigger] self.workers@[w2] is Running)
                && self.workers@[w1]->Running_0 == self.workers@[w2]->Running_0 ==> w1 == w2
        &&& forall|id: u64| #[trigger] self.done@.contains(id) ==> id < self.accepted
        &&& forall|id: u64|
            id < self.accepted ==> #[trigger] self.done@.contains(id) || exists|w: int|
                0 <= w < self.workers@.len() && #[trigger] self.workers@[w] == WorkerState::Running(
                    id,
                )
    }

    /// Creates a pool of `size` waiting workers and an open, empty channel.
    pub fn new(size: u32) -> (r: Self)
        requires
            size > 0,
        ensures
            r.wf(),
            r.is_open(),
            r.workers() == Seq::new(size as nat, |w: int| WorkerState::Waiting),
            r.jobs() == Seq::<T>::empty(),
            r.accepted() == 0,
            r.done() == Set::<u64>::empty(),
    {
        let mut workers: Vec<WorkerState> = Vec::with_capacity(size as usize);
        let mut i: u32 = 0;
        while i < size
            invariant
                i <= size,
                workers@ == Seq::new(i as nat, |w: int| WorkerState::Waiting),
            decreases size - i,
        {
            workers.push(WorkerState::Waiting);
            i = i + 1;
            assert(workers@ =~= Seq::new(i as nat, |w: int| WorkerState::Waiting));
        }
        Dispatcher {
            channel: Channel::new(),
            workers,
            next_id: 0,
            accepted: 0,
            jobs: Ghost(Seq::empty()),
            done: Ghost(Set::empty()),
        }
    }
    /// The number of workers, fixed at construction.
    pub fn size(&self) -> (r: usize)
        requires
            self.wf(),
        ensures
            r == self.workers().len(),
            r > 0,
    {
        self.workers.len()
    }

    /// How many jobs have been submitted so far.
    pub fn submitted(&self) -> (r: u64)
        requires
            self.wf(),
        ensures
            r == self.jobs().len(),
    {
        self.next_id
    }

    /// How many jobs are queued, waiting for a worker.
    pub fn queued(&self) -> (r: u64)
        requires
            self.wf(),
        ensures
            self.is_open() ==> r == self.jobs().len() - self.accepted(),
            !self.is_open() ==> r == 0,
    {
        if self.channel.is_closed() {
            0
        } else {
            self.next_id - self.accepted
        }
    }

    pub fn is_closed(&self) -> (r: bool)
        ensures
            r == !self.is_open(),
    {
        self.channel.is_closed()
    }

    /// The state of worker `w`.
    pub fn worker_state(&self, w: usize) -> (r: WorkerState)
        requires
            w < self.workers().len(),
        ensures
            r == self.workers()[w as int],
    {
        self.workers[w]
    }

    /// Whether every worker has left its loop: the pool is fully stopped.
    pub fn is_stopped(&self) -> (r: bool)
        ensures
            r == forall|w: int| 0 <= w < self.workers().len() ==> self.workers()[w] == WorkerState::Exited,
    {
        let mut i: usize = 0;
        while i < self.workers.len()
            invariant
                i <= self.workers@.len(),
                forall|w: int| 0 <= w < i ==> self.workers@[w] == WorkerState::Exited,
            decreases self.workers@.len() - i,
        {
            if self.workers[i] != WorkerState::Exited {
                return false;
            }
            i = i + 1;
        }
        true
    }

    /// Queues `job` behind every job submitted before it and returns its
    /// identifier; never waits for a worker. Once the pool is shut down the
    /// job is handed back instead.
    pub fn submit(&mut self, job: T) -> (r: Result<u64, SendError<T>>)
        requires
            old(self).wf(),
            old(self).jobs().len() < u64::MAX,
        ensures
            final(self).wf(),
            final(self).is_open() == old(self).is_open(),
            final(self).workers() == old(self).workers(),
            final(self).accepted() == old(self).accepted(),
            final(self).done() == old(self).done(),
            old(self).is_open() ==> r == Ok::<u64, SendError<T>>(old(self).jobs().len() as u64)
                && final(self).jobs() == old(self).jobs().push(job),
            !old(self).is_open() ==> r == Err::<u64, SendError<T>>(SendError(job))
                && final(self).jobs() == old(self).jobs(),
    {
        let id = self.next_id;
        match self.channel.send((id, job)) {
            Ok(()) => {
                self.next_id = id + 1;
                self.jobs = Ghost(self.jobs@.push(job));
                assert forall|i: int| 0 <= i < self.channel.pending().len() implies
                    #[trigger] self.channel.pending()[i] == (
                    (self.accepted + i) as u64,
                    self.jobs@[self.accepted + i],
                ) by {
                    if i < old(self).channel.pending().len() {
                        assert(old(self).channel.pending()[i] == self.channel.pending()[i]);
                    }
                }
                Ok(id)
            },
            Err(SendError((_, job))) => Err(SendError(job)),
        }
    }

    /// Worker `w` asks for work. While the pool is open it is handed the
    /// oldest queued job, or told to wait when none is queued; once the pool
    /// is shut down it is told to exit.
    pub fn worker_ready(&mut self, w: usize) -> (r: Action<T>)
        requires
            old(self).wf(),
            w < old(self).workers().len(),
            old(self).workers()[w as int] == WorkerState::Waiting,
        ensures
            final(self).wf(),
            final(self).is_open() == old(self).is_open(),
            final(self).jobs() == old(self).jobs(),
            final(self).done() == old(self).done(),
            match r {
                Action::Run(id, job) => {
                    &&& old(self).is_queued(id as nat)
                    &&& id == old(self).accepted()
                    &&& job == old(self).jobs()[id as int]
                    &&& final(self).accepted() == old(self).accepted() + 1
                    &&& final(self).workers() == old(self).workers().update(
                        w as int,
                        WorkerState::Running(id),
                    )
                },
                Action::Wait => {
                    &&& old(self).is_open()
                    &&& old(self).accepted() == old(self).jobs().len()
                    &&& final(self).accepted() == old(self).accepted()
                    &&& final(self).workers() == old(self).workers()
                },
                Action::Exit => {
                    &&& !old(self).is_open()
                    &&& final(self).accepted() == old(self).accepted()
                    &&& final(self).workers() == old(self).workers().update(
                        w as int,
                        WorkerState::Exited,
                    )
                },
            },
    {
        match self.channel.try_recv() {
            Recv::Item((id, job)) => {
                assert(old(self).channel.pending()[0] == (id, job));
                assert(old(self).channel.is_open());
                assert(self.accepted < self.next_id);
                self.accepted = self.accepted + 1;
                self.workers.set(w, WorkerState::Running(id));
                assert forall|i: int| 0 <= i < self.channel.pending().len() implies
                    #[trigger] self.channel.pending()[i] == (
                    (self.accepted + i) as u64,
                    self.jobs@[self.accepted + i],
                ) by {
                    assert(self.channel.pending()[i] == old(self).channel.pending()[i + 1]);
                }
                assert forall|x: u64| x < self.accepted implies #[trigger] self.done@.contains(x)
                    || exists|v: int|
                    0 <= v < self.workers@.len() && #[trigger] self.workers@[v]
                        == WorkerState::Running(x) by {
                    if x == id {
                        assert(self.workers@[w as int] == WorkerState::Running(x));
                    } else {
                        assert(x < old(self).accepted);
                        if !self.done@.contains(x) {
                            let v = choose|v: int|
                                0 <= v < old(self).workers@.len() && #[trigger] old(
                                    self,
                                ).workers@[v] == WorkerState::Running(x);
                            assert(self.workers@[v] == WorkerState::Running(x));
                        }
                    }
                }
                Action::Run(id, job)
            },
            Recv::Empty => Action::Wait,
            Recv::Closed => {
                self.workers.set(w, WorkerState::Exited);
                assert forall|x: u64| x < self.accepted implies #[trigger] self.done@.contains(x)
                    || exists|v: int|
                    0 <= v < self.workers@.len() && #[trigger] self.workers@[v]
                        == WorkerState::Running(x) by {
                    if !self.done@.contains(x) {
                        let v = choose|v: int|
                            0 <= v < old(self).workers@.len() && #[trigger] old(self).workers@[v]
                                == WorkerState::Running(x);
                        assert(self.workers@[v] == WorkerState::Running(x));
                    }
                }
                Action::Exit
            },
        }
    }

    /// Worker `w` reports that its job returned, normally or by a fault that
    /// the worker caught; the worker waits for work again. Returns the job's
    /// identifier.
    pub fn job_finished(&mut self, w: usize) -> (r: u64)
        requires
            old(self).wf(),
            w < old(self).workers().len(),
            old(self).workers()[w as int] is Running,
        ensures
            final(self).wf(),
            r == old(self).workers()[w as int]->Running_0,
            final(self).done() == old(self).done().insert(r),
            final(self).workers() == old(self).workers().update(w as int, WorkerState::Waiting),
            final(self).is_open() == old(self).is_open(),
            final(self).jobs() == old(self).jobs(),
            final(self).accepted() == old(self).accepted(),
    {
        let id = match self.workers[w] {
            WorkerState::Running(id) => id,
            _ => 0,
        };
        self.workers.set(w, WorkerState::Waiting);
        self.done = Ghost(self.done@.insert(id));
        assert forall|x: u64| x < self.accepted implies #[trigger] self.done@.contains(x)
            || exists|v: int|
            0 <= v < self.workers@.len() && #[trigger] self.workers@[v] == WorkerState::Running(
                x,
            ) by {
            if !self.done@.contains(x) {
                let v = choose|v: int|
                    0 <= v < old(self).workers@.len() && #[trigger] old(self).workers@[v]
                        == WorkerState::Running(x);
                assert(v != w);
                assert(self.workers@[v] == WorkerState::Running(x));
            }
        }
        id
    }

    /// Shuts the pool down: no job is accepted or handed out any more, the
    /// jobs still queued are discarded and returned in submission order, and
    /// the jobs already running are left to finish.
    pub fn shutdown(&mut self) -> (r: Vec<T>)
        requires
            old(self).wf(),
        ensures
            final(self).wf(),
            !final(self).is_open(),
            final(self).jobs() == old(self).jobs(),
            final(self).accepted() == old(self).accepted(),
            final(self).workers() == old(self).workers(),
            final(self).done() == old(self).done(),
            old(self).is_open() ==> r@ == old(self).jobs().subrange(
                old(self).accepted() as int,
                old(self).jobs().len() as int,
            ),
            !old(self).is_open() ==> r@.len() == 0,
    {
        let ghost acc = self.accepted as int;
        proof {
            if !self.channel.is_open() {
                assert(self.channel.pending().len() == 0);
            }
        }
        let mut queued = self.channel.close();
        let ghost orig = queued@;
        assert(acc + orig.len() <= self.jobs@.len());
        let n = queued.len();
        let mut out: Vec<T> = Vec::new();
        let mut k: usize = 0;
        while k < n
            invariant
                k <= n,
                n == orig.len(),
                queued@ == orig.subrange(k as int, n as int),
                out@ == self.jobs@.subrange(acc, acc + k),
                forall|i: int|
                    0 <= i < orig.len() ==> #[trigger] orig[i] == (
                        (acc + i) as u64,
                        self.jobs@[acc + i],
                    ),
                0 <= acc,
                acc + n <= self.jobs@.len(),
            decreases n - k,
        {
            assert(queued@[0] == orig[k as int]);
            let (_, job) = queued.remove(0);
            assert(orig[k as int].1 == self.jobs@[acc + k]);
            out.push(job);
            assert(self.jobs@.subrange(acc, acc + k + 1) =~= self.jobs@.subrange(acc, acc + k).push(
                self.jobs@[acc + k],
            ));
            k = k + 1;
            assert(queued@ =~= orig.subrange(k as int, n as int));
        }
        proof {
            if old(self).channel.is_open() {
                assert(acc + n == self.jobs@.len());
            }
        }
        out
    }
}

/// Every submitted job is in exactly one of four conditions: queued, running,
/// done, or discarded at shutdown; and a running job runs on one worker only.
/// With the transitions of `Dispatcher` (a job is handed out only while
/// queued, and leaves that condition for good), each job runs at most once
/// and, unless the pool is shut down first, exactly once.
pub proof fn exactly_once<T>(d: &Dispatcher<T>, id: nat)
    requires
        d.wf(),
        id < d.jobs().len(),
    ensures
        (if d.is_queued(id) { 1int } else { 0 }) + (if d.is_running(id) { 1int } else { 0 })
            + (if d.is_done(id) { 1int } else { 0 }) + (if d.is_discarded(id) { 1int } else { 0 })
            == 1,
        forall|w1: int, w2: int| d.runs(w1, id) && d.runs(w2, id) ==> w1 == w2,
{
    assert(id < u64::MAX);
    let x = id as u64;
    if id < d.accepted() {
        if d.done().contains(x) {
            if d.is_running(id) {
                let w = choose|w: int| d.runs(w, id);
                assert(d.workers@[w] is Running);
            }
        } else {
            let w = choose|w: int|
                0 <= w < d.workers@.len() && #[trigger] d.workers@[w] == WorkerState::Running(x);
            assert(d.runs(w, id));
        }
    } else {
        if d.done().contains(x) {
            assert(x < d.accepted);
        }
        if d.is_running(id) {
            let w = choose|w: int| d.runs(w, id);
            assert(d.workers@[w] is Running);
        }
    }
    assert forall|w1: int, w2: int| d.runs(w1, id) && d.runs(w2, id) implies w1 == w2 by {
        assert(d.workers@[w1] is Running);
        assert(d.workers@[w2] is Running);
    }
}

/// Jobs are accepted for execution in submission order: once a job has been
/// handed to a worker, every job submitted before it has been handed out too.
pub proof fn fifo_acceptance<T>(d: &Dispatcher<T>, earlier: nat, later: nat)
    requires
        d.wf(),
        earlier < later < d.jobs().len(),
        d.is_running(later) || d.is_done(later),
    ensures
        d.is_running(earlier) || d.is_done(earlier),
{
    exactly_once(d, later);
    exactly_once(d, earlier);
    assert(earlier < u64::MAX);
    let x = earlier as u64;
    assert(x < d.accepted);
    if !d.done@.contains(x) {
        let w = choose|w: int|
            0 <= w < d.workers@.len() && #[trigger] d.workers@[w] == WorkerState::Running(x);
        assert(d.runs(w, earlier));
    }
}

} // verus!
