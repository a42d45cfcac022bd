//! The bookkeeping of a worker pool: a fixed number of workers and the jobs
//! that wait for one of them, first come, first served. The threads that
//! run the jobs are not here; a worker that is free asks for its next job.

use std::collections::VecDeque;
use vstd::prelude::*;

verus! {

/// The number of workers of a pool.
struct PoolSize {
    workers: usize,
}

impl PoolSize {
    /// A pool is never without workers.
    #[verifier::type_invariant]
    spec fn well_formed(self) -> bool {
        self.workers > 0
    }
}

/// A pool of a fixed number of workers and the jobs that wait for them.
pub struct ThreadPool<J> {
    size: PoolSize,
    waiting: VecDeque<J>,
}

/// What a pool holds: the number of its workers and the waiting jobs, the
/// one that waited longest first.
pub struct PoolView<J> {
    pub size: nat,
    pub waiting: Seq<J>,
}

impl<J> View for ThreadPool<J> {
    type V = PoolView<J>;

    closed spec fn view(&self) -> PoolView<J> {
        PoolView { size: self.size.workers as nat, waiting: self.waiting@ }
    }
}

impl<J> ThreadPool<J> {
    /// A pool of `size` workers, with no job waiting. A pool without
    /// workers cannot be made.
    pub fn new(size: usize) -> (r: Self)
        requires
            size > 0,
        ensures
            r@ == (PoolView::<J> { size: size as nat, waiting: Seq::empty() }),
    {
        ThreadPool { size: PoolSize { workers: size }, waiting: VecDeque::new() }
    }

    /// The number of workers, which never changes.
    pub fn size(&self) -> (r: usize)
        ensures
            r == self@.size,
            r > 0,
    {
        proof {
            use_type_invariant(&self.size);
        }
        self.size.workers
    }

    /// The number of jobs that wait for a worker.
    pub fn waiting(&self) -> (r: usize)
        ensures
            r == self@.waiting.len(),
    {
        self.waiting.len()
    }

    /// Hands a job to the pool: it waits behind the jobs handed in before
    /// it. The pool takes every job.
    pub fn execute(&mut self, job: J)
        ensures
            final(self)@ == (PoolView { size: old(self)@.size, waiting: old(self)@.waiting.push(job) }),
    {
        self.waiting.push_back(job);
    }

    /// The job for a worker that is free: the one that waited longest, which
    /// then waits no more; `None` where no job waits.
    pub fn next_job(&mut self) -> (r: Option<J>)
        ensures
            final(self)@.size == old(self)@.size,
            match r {
                Some(job) => {
                    &&& old(self)@.waiting.len() > 0
                    &&& job == old(self)@.waiting.first()
                    &&& final(self)@.waiting == old(self)@.waiting.drop_first()
                },
                None => old(self)@.waiting.len() == 0 && final(self)@.waiting == old(self)@.waiting,
            },
    {
        self.waiting.pop_front()
    }
}

/// What happens to a pool: a job is handed in, or a free worker asks for its
/// next job.
pub enum Event<J> {
    Execute(J),
    NextJob,
}

/// The jobs that wait and the jobs that workers were given, in the order in
/// which they were given.
pub struct Account<J> {
    pub waiting: Seq<J>,
    pub given: Seq<J>,
}

/// The account after an event, as `execute` and `next_job` change a pool.
pub open spec fn after<J>(account: Account<J>, event: Event<J>) -> Account<J> {
    match event {
        Event::Execute(job) => Account { waiting: account.waiting.push(job), given: account.given },
        Event::NextJob => if account.waiting.len() > 0 {
            Account {
                waiting: account.waiting.drop_first(),
                given: account.given.push(account.waiting.first()),
            }
        } else {
            account
        },
    }
}

/// The account of a new pool after a sequence of events.
pub open spec fn account_of<J>(events: Seq<Event<J>>) -> Account<J>
    decreases events.len(),
{
    if events.len() == 0 {
        Account { waiting: Seq::empty(), given: Seq::empty() }
    } else {
        after(account_of(events.drop_last()), events.last())
    }
}

/// The jobs handed in by a sequence of events, in their order.
pub open spec fn handed_in<J>(events: Seq<Event<J>>) -> Seq<J>
    decreases events.len(),
{
    if events.len() == 0 {
        Seq::empty()
    } else {
        match events.last() {
            Event::Execute(job) => handed_in(events.drop_last()).push(job),
            Event::NextJob => handed_in(events.drop_last()),
        }
    }
}

/// Whatever happens to a pool, the jobs given to workers followed by the
/// jobs that wait are the jobs handed in, in their order: no job is lost,
/// none is given twice, and they are given in the order of their coming.
pub proof fn lemma_jobs_accounted<J>(events: Seq<Event<J>>)
    ensures
        account_of(events).given + account_of(events).waiting == handed_in(events),
    decreases events.len(),
{
    if events.len() > 0 {
        let before = account_of(events.drop_last());
        lemma_jobs_accounted(events.drop_last());
        match events.last() {
            Event::Execute(job) => {
                assert(before.given + before.waiting.push(job) =~= (before.given
                    + before.waiting).push(job));
            },
            Event::NextJob => {
                if before.waiting.len() > 0 {
                    assert(before.given.push(before.waiting.first())
                        + before.waiting.drop_first() =~= before.given + before.waiting);
                }
            },
        }
    }
}

/// Once as many jobs were given out as were handed in, none waits: every
/// job handed in was given to a worker, once.
pub proof fn lemma_all_jobs_given<J>(events: Seq<Event<J>>)
    requires
        account_of(events).given.len() == handed_in(events).len(),
    ensures
        account_of(events).given == handed_in(events),
        account_of(events).waiting.len() == 0,
{
    lemma_jobs_accounted(events);
    assert(account_of(events).given + account_of(events).waiting =~= account_of(events).given);
}

} // verus!
