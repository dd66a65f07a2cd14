//! The worker pool's book-keeping: which tasks wait, in what order, how many
//! run, and whether the pool still takes tasks in. The threads are the
//! caller's business. Each of them asks for the next task when it is free and
//! says so when it has finished one; all of this goes through one
//! `ThreadPool` behind a lock.

use std::collections::VecDeque;
use vstd::prelude::*;

verus! {

/// Why a pool could not be made: it would have no worker.
#[derive(Debug, Clone, Copy, PartialEq, Eq, Structural)]
pub struct PoolCreationError;

/// How a task ended.
#[derive(Debug, Clone, Copy, PartialEq, Eq, Structural)]
pub enum TaskOutcome {
    Completed,
    /// The task gave up half-way. Its worker goes on to the next task all the same.
    Failed,
}

/// The workers of a pool: how many there are and how many of them are busy.
struct Workers {
    size: usize,
    running: usize,
}

impl Workers {
    #[verifier::type_invariant]
    spec fn type_invariant(self) -> bool {
        1 <= self.size && self.running <= self.size
    }

    fn new(size: usize) -> (workers: Self)
        requires
            1 <= size,
        ensures
            workers.size == size,
            workers.running == 0,
    {
        Workers { size, running: 0 }
    }

    fn size(&self) -> (size: usize)
        ensures
            size == self.size,
            1 <= size,
            self.running <= size,
    {
        proof {
            use_type_invariant(self);
        }
        self.size
    }

    fn running(&self) -> (running: usize)
        ensures
            running == self.running,
            running <= self.size,
            1 <= self.size,
    {
        proof {
            use_type_invariant(self);
        }
        self.running
    }

    fn start(&mut self)
        requires
            old(self).running < old(self).size,
        ensures
            final(self).size == old(self).size,
            final(self).running == old(self).running + 1,
    {
        self.running = self.running + 1;
    }

    fn stop(&mut self)
        requires
            old(self).running > 0,
        ensures
            final(self).size == old(self).size,
            final(self).running == old(self).running - 1,
    {
        proof {
            use_type_invariant(&*self);
        }
        self.running = self.running - 1;
    }
}

/// A pool of workers with the tasks that wait for one of them.
pub struct ThreadPool<T> {
    workers: Workers,
    queue: VecDeque<T>,
    accepting: bool,
}

/// What a `ThreadPool` holds: the number of workers, the number of tasks that run, the
/// tasks that wait, the one that has waited longest first, and whether tasks are still
/// taken in.
pub ghost struct ThreadPoolView<T> {
    pub size: nat,
    pub running: nat,
    pub queue: Seq<T>,
    pub accepting: bool,
}

impl<T> View for ThreadPool<T> {
    type V = ThreadPoolView<T>;

    closed spec fn view(&self) -> ThreadPoolView<T> {
        ThreadPoolView {
            size: self.workers.size as nat,
            running: self.workers.running as nat,
            queue: self.queue@,
            accepting: self.accepting,
        }
    }
}

impl<T> ThreadPoolView<T> {
    /// What holds of every pool: it has a worker, and no more tasks run than it has workers.
    pub open spec fn well_formed(self) -> bool {
        1 <= self.size && self.running <= self.size
    }

    /// The pool after `task` was handed in: it waits behind all that waited before, unless
    /// the pool has been shut down.
    pub open spec fn execute(self, task: T) -> ThreadPoolView<T> {
        if self.accepting {
            ThreadPoolView { queue: self.queue.push(task), ..self }
        } else {
            self
        }
    }

    /// Whether a free worker that asks for a task gets one.
    pub open spec fn has_next(self) -> bool {
        self.running < self.size && self.queue.len() > 0
    }

    /// The pool after a free worker took the task that has waited longest.
    pub open spec fn next(self) -> ThreadPoolView<T> {
        if self.has_next() {
            ThreadPoolView { running: self.running + 1, queue: self.queue.skip(1), ..self }
        } else {
            self
        }
    }

    /// The pool after a task that ran has ended.
    pub open spec fn finish(self) -> ThreadPoolView<T> {
        if self.running > 0 {
            ThreadPoolView { running: (self.running - 1) as nat, ..self }
        } else {
            self
        }
    }

    /// The pool after it was shut down: no task is taken in any more. The tasks that run
    /// and those that wait are left as they are.
    pub open spec fn shut_down(self) -> ThreadPoolView<T> {
        ThreadPoolView { accepting: false, ..self }
    }

    /// Whether a free worker may stop for good: the pool has been shut down and no task
    /// waits.
    pub open spec fn may_stop(self) -> bool {
        !self.accepting && self.queue.len() == 0
    }
}

impl<T> ThreadPool<T> {
    /// A pool of `size` workers, none of them busy, with no task waiting. A pool must have a
    /// worker: there is none of size 0.
    pub fn new(size: usize) -> (pool: Result<Self, PoolCreationError>)
        ensures
            size == 0 <==> pool.is_err(),
            pool.is_ok() ==> pool.unwrap()@ == (ThreadPoolView {
                size: size as nat,
                running: 0,
                queue: Seq::<T>::empty(),
                accepting: true,
            }),
    {
        if size == 0 {
            Err(PoolCreationError)
        } else {
            Ok(ThreadPool { workers: Workers::new(size), queue: VecDeque::new(), accepting: true })
        }
    }

    /// The number of workers. There is at least one.
    pub fn size(&self) -> (size: usize)
        ensures
            size == self@.size,
            self@.well_formed(),
    {
        self.workers.size()
    }

    /// The number of tasks that run. It is never more than the number of workers.
    pub fn running(&self) -> (running: usize)
        ensures
            running == self@.running,
            self@.well_formed(),
    {
        self.workers.running()
    }

    /// The number of tasks that wait.
    pub fn waiting(&self) -> (waiting: usize)
        ensures
            waiting == self@.queue.len(),
    {
        self.queue.len()
    }

    /// Hands in `task`. It waits behind all tasks handed in before it, however many wait
    /// already: none is turned away and none is dropped. Only a pool that has been shut
    /// down takes no task in, and hands it back.
    pub fn execute(&mut self, task: T) -> (refused: Result<(), T>)
        ensures
            final(self)@ == old(self)@.execute(task),
            match refused {
                Ok(_) => old(self)@.accepting,
                Err(back) => !old(self)@.accepting && back == task,
            },
    {
        if self.accepting {
            self.queue.push_back(task);
            Ok(())
        } else {
            Err(task)
        }
    }

    /// A free worker asks for a task. It gets the one that has waited longest, which then
    /// counts as running, unless as many tasks run as there are workers or none waits.
    pub fn next(&mut self) -> (task: Option<T>)
        ensures
            final(self)@ == old(self)@.next(),
            task == if old(self)@.has_next() {
                Some(old(self)@.queue[0])
            } else {
                None
            },
    {
        if self.workers.running() < self.workers.size() {
            let task = self.queue.pop_front();
            if task.is_some() {
                self.workers.start();
            }
            proof {
                assert(old(self)@.queue.subrange(1, old(self)@.queue.len() as int)
                    == old(self)@.queue.skip(1));
            }
            task
        } else {
            None
        }
    }

    /// A worker says that its task has ended. However it ended, the worker is free again.
    pub fn finish(&mut self, outcome: TaskOutcome)
        ensures
            final(self)@ == old(self)@.finish(),
    {
        if self.workers.running() > 0 {
            self.workers.stop();
        }
    }

    /// Shuts the pool down: from now on no task is taken in. The tasks that run are left to
    /// finish, and those that wait still get their turn.
    pub fn shut_down(&mut self)
        ensures
            final(self)@ == old(self)@.shut_down(),
    {
        self.accepting = false;
    }

    /// Whether a free worker may stop for good.
    pub fn may_stop(&self) -> (stop: bool)
        ensures
            stop == self@.may_stop(),
    {
        !self.accepting && self.queue.len() == 0
    }
}

/// One thing that happens to a pool.
pub ghost enum PoolEvent<T> {
    /// A task is handed in.
    Execute(T),
    /// A free worker asks for a task.
    Next,
    /// A task that ran has ended.
    Finish,
    /// The pool is shut down.
    ShutDown,
}

impl<T> ThreadPoolView<T> {
    /// The pool after `event`.
    pub open spec fn apply(self, event: PoolEvent<T>) -> ThreadPoolView<T> {
        match event {
            PoolEvent::Execute(task) => self.execute(task),
            PoolEvent::Next => self.next(),
            PoolEvent::Finish => self.finish(),
            PoolEvent::ShutDown => self.shut_down(),
        }
    }

    /// The pool after `events`, one after the other.
    pub open spec fn run(self, events: Seq<PoolEvent<T>>) -> ThreadPoolView<T>
        decreases events.len(),
    {
        if events.len() == 0 {
            self
        } else {
            self.run(events.drop_last()).apply(events.last())
        }
    }

    /// The tasks that the pool took in in the course of `events`, in that order.
    pub open spec fn accepted(self, events: Seq<PoolEvent<T>>) -> Seq<T>
        decreases events.len(),
    {
        if events.len() == 0 {
            Seq::empty()
        } else {
            let before = self.run(events.drop_last());
            match events.last() {
                PoolEvent::Execute(task) if before.accepting => self.accepted(
                    events.drop_last(),
                ).push(task),
                _ => self.accepted(events.drop_last()),
            }
        }
    }

    /// The tasks that workers took in the course of `events`, in the order in which they
    /// took them.
    pub open spec fn taken(self, events: Seq<PoolEvent<T>>) -> Seq<T>
        decreases events.len(),
    {
        if events.len() == 0 {
            Seq::empty()
        } else {
            let before = self.run(events.drop_last());
            if events.last() is Next && before.has_next() {
                self.taken(events.drop_last()).push(before.queue[0])
            } else {
                self.taken(events.drop_last())
            }
        }
    }
}

/// `rounds` times over: a task ends, and the worker that is free then asks for the next.
pub open spec fn spec_rounds<T>(rounds: nat) -> Seq<PoolEvent<T>>
    decreases rounds,
{
    if rounds == 0 {
        Seq::empty()
    } else {
        spec_rounds::<T>((rounds - 1) as nat).push(PoolEvent::Finish).push(PoolEvent::Next)
    }
}

/// Whatever happens to a pool, it keeps its workers, and no more tasks run at a time than
/// it has workers.
pub proof fn lemma_bounded<T>(pool: ThreadPoolView<T>, events: Seq<PoolEvent<T>>)
    requires
        pool.well_formed(),
    ensures
        pool.run(events).well_formed(),
        pool.run(events).size == pool.size,
    decreases events.len(),
{
    if events.len() > 0 {
        lemma_bounded(pool, events.drop_last());
    }
}

/// No task is lost and none overtakes another: the tasks that workers took, followed by
/// those that wait, are the tasks that waited at first followed by those taken in since.
pub proof fn lemma_no_task_lost<T>(pool: ThreadPoolView<T>, events: Seq<PoolEvent<T>>)
    ensures
        pool.taken(events) + pool.run(events).queue == pool.queue + pool.accepted(events),
    decreases events.len(),
{
    if events.len() == 0 {
        assert(Seq::<T>::empty() + pool.queue =~= pool.queue + Seq::<T>::empty());
    } else {
        let front = events.drop_last();
        lemma_no_task_lost(pool, front);
        let before = pool.run(front);
        match events.last() {
            PoolEvent::Execute(task) => {
                if before.accepting {
                    assert(pool.taken(front) + before.queue.push(task) =~= (pool.taken(front)
                        + before.queue).push(task));
                    assert((pool.queue + pool.accepted(front)).push(task) =~= pool.queue
                        + pool.accepted(front).push(task));
                }
            },
            PoolEvent::Next => {
                if before.has_next() {
                    assert(pool.taken(front).push(before.queue[0]) + before.queue.skip(1)
                        =~= pool.taken(front) + before.queue);
                }
            },
            PoolEvent::Finish => {},
            PoolEvent::ShutDown => {},
        }
    }
}

/// A pool that has been shut down stays so, and takes no task in, whatever happens.
pub proof fn lemma_shut_down_for_good<T>(pool: ThreadPoolView<T>, events: Seq<PoolEvent<T>>)
    requires
        !pool.accepting,
    ensures
        !pool.run(events).accepting,
        pool.accepted(events) == Seq::<T>::empty(),
    decreases events.len(),
{
    if events.len() > 0 {
        lemma_shut_down_for_good(pool, events.drop_last());
    }
}

/// Every task that waits gets its turn: while all workers are busy, each time a task ends
/// the one that has waited longest is taken, so that the task at place `rounds` of the
/// queue is at its head after `rounds` tasks have ended. This holds of a pool that has been
/// shut down as well.
pub proof fn lemma_queue_drains<T>(pool: ThreadPoolView<T>, rounds: nat)
    requires
        pool.well_formed(),
        pool.running == pool.size,
        rounds <= pool.queue.len(),
    ensures
        pool.run(spec_rounds::<T>(rounds)).running == pool.size,
        pool.run(spec_rounds::<T>(rounds)).size == pool.size,
        pool.run(spec_rounds::<T>(rounds)).accepting == pool.accepting,
        pool.run(spec_rounds::<T>(rounds)).queue == pool.queue.skip(rounds as int),
        pool.taken(spec_rounds::<T>(rounds)) == pool.queue.take(rounds as int),
    decreases rounds,
{
    if rounds == 0 {
        assert(pool.queue.skip(0) =~= pool.queue);
        assert(pool.queue.take(0) =~= Seq::<T>::empty());
    } else {
        let earlier = spec_rounds::<T>((rounds - 1) as nat);
        lemma_queue_drains(pool, (rounds - 1) as nat);
        let ended = earlier.push(PoolEvent::Finish);
        let events = ended.push(PoolEvent::Next);
        assert(events.drop_last() =~= ended);
        assert(ended.drop_last() =~= earlier);
        let before = pool.run(earlier);
        let free = pool.run(ended);
        assert(free == before.finish());
        assert(free.has_next());
        assert(pool.taken(ended) == pool.taken(earlier));
        assert(free.queue[0] == pool.queue[rounds - 1]);
        assert(pool.queue.skip(rounds - 1).skip(1) =~= pool.queue.skip(rounds as int));
        assert(pool.queue.take(rounds - 1).push(pool.queue[rounds - 1]) =~= pool.queue.take(
            rounds as int,
        ));
    }
}

} // verus!
