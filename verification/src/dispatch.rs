//! Deferred work: a first-in, first-out queue of tasks for a pool of workers,
//! and a scheduler that holds tasks back until their delay has passed.
//!
//! The queue and the scheduler decide; whoever drives them owns the threads,
//! the waiting and the clock, and tells them the time as a count of ticks.

use std::collections::VecDeque;
use vstd::prelude::*;

verus! {

/// An entry of the work queue: a task to run, or a wake-up with nothing to do,
/// which lets a worker look at its stop flag.
pub enum Job<T> {
    Run(T),
    Idle,
}

/// The work queue of a pool of workers, with one run flag for each worker.
pub struct Dispatcher<T> {
    deque: VecDeque<Job<T>>,
    states: Vec<bool>,
}

impl<T> Dispatcher<T> {
    /// The queued jobs, the next one to run first.
    pub closed spec fn queue(&self) -> Seq<Job<T>> {
        self.deque@
    }

    /// The run flag of each worker: `false` asks the worker to stop.
    pub closed spec fn states(&self) -> Seq<bool> {
        self.states@
    }

    /// A dispatcher for `thread_count` workers, all asked to run, with nothing queued.
    pub fn launch(thread_count: usize) -> (dispatcher: Self)
        ensures
            dispatcher.queue() == Seq::<Job<T>>::empty(),
            dispatcher.states() == Seq::new(thread_count as nat, |i: int| true),
    {
        let mut states: Vec<bool> = Vec::new();
        let mut i: usize = 0;
        while i < thread_count
            invariant
                i <= thread_count,
                states@ == Seq::new(i as nat, |k: int| true),
            decreases thread_count - i,
        {
            states.push(true);
            assert(states@ =~= Seq::new((i + 1) as nat, |k: int| true));
            i += 1;
        }
        Dispatcher { deque: VecDeque::new(), states }
    }

    /// Queues `func` behind everything queued. The answer says that one waiting
    /// worker is to be woken, which is always the case.
    pub fn push(&mut self, func: T) -> (wake: bool)
        ensures
            final(self).queue() == old(self).queue().push(Job::Run(func)),
            final(self).states() == old(self).states(),
            wake,
    {
        self.deque.push_back(Job::Run(func));
        true
    }

    /// Takes the job at the front. With an empty queue there is none and the
    /// caller has to wait; otherwise the flag beside the job says whether more
    /// jobs are queued, so that another worker is to be woken.
    pub fn pop(&mut self) -> (taken: Option<(Job<T>, bool)>)
        ensures
            final(self).states() == old(self).states(),
            old(self).queue().len() == 0 ==> taken is None && final(self).queue() == old(self).queue(),
            old(self).queue().len() > 0 ==> taken == Some(
                (old(self).queue()[0], old(self).queue().len() > 1),
            ) && final(self).queue() == old(self).queue().skip(1),
    {
        match self.deque.pop_front() {
            Some(job) => {
                assert(old(self).deque@.subrange(1, old(self).deque@.len() as int) =~= old(self).deque@.skip(1));
                let more = self.deque.len() > 0;
                Some((job, more))
            },
            None => None,
        }
    }

    /// Whether worker number `worker` is still asked to run.
    pub fn is_running(&self, worker: usize) -> (running: bool)
        ensures
            running == (worker < self.states().len() && self.states()[worker as int]),
    {
        worker < self.states.len() && self.states[worker]
    }

    pub fn workers(&self) -> (n: usize)
        ensures
            n == self.states().len(),
    {
        self.states.len()
    }

    /// Asks every worker to stop and queues one idle job for each, so that every
    /// worker wakes once more and sees its flag.
    pub fn shutdown(&mut self)
        ensures
            final(self).states() == Seq::new(old(self).states().len(), |i: int| false),
            final(self).queue() == old(self).queue() + Seq::new(
                old(self).states().len(),
                |i: int| Job::<T>::Idle,
            ),
    {
        let n = self.states.len();
        let mut i: usize = 0;
        while i < n
            invariant
                i <= n,
                n == self.states@.len(),
                n == old(self).states@.len(),
                self.deque@ == old(self).deque@,
                forall|k: int| 0 <= k < i ==> !self.states@[k],
            decreases n - i,
        {
            self.states[i] = false;
            i += 1;
        }
        assert(self.states@ =~= Seq::new(n as nat, |i: int| false));
        let mut j: usize = 0;
        while j < n
            invariant
                j <= n,
                self.states@ == Seq::new(n as nat, |i: int| false),
                self.deque@ == old(self).deque@ + Seq::new(j as nat, |i: int| Job::<T>::Idle),
            decreases n - j,
        {
            self.deque.push_back(Job::Idle);
            assert(self.deque@ =~= old(self).deque@ + Seq::new(
                (j + 1) as nat,
                |i: int| Job::<T>::Idle,
            ));
            j += 1;
        }
    }
}

/// A task held back until `delay` ticks have passed since it was deployed.
pub struct DelayedTask<T> {
    pub task: T,
    pub deploy_instant: u64,
    pub delay: u64,
}

/// The ticks from `earlier` to `now`; none where `now` lies before it.
pub open spec fn elapsed(now: u64, earlier: u64) -> int {
    if now >= earlier {
        now - earlier
    } else {
        0
    }
}

impl<T> DelayedTask<T> {
    /// The task deployed at the tick `now`.
    pub fn new(task: T, delay: u64, now: u64) -> (delayed: Self)
        ensures
            delayed.task == task,
            delayed.delay == delay,
            delayed.deploy_instant == now,
    {
        Self { task, deploy_instant: now, delay }
    }

    /// Whether the delay has passed at the tick `now`.
    pub open spec fn ready(&self, now: u64) -> bool {
        elapsed(now, self.deploy_instant) >= self.delay
    }

    pub fn is_ready(&self, now: u64) -> (ready: bool)
        ensures
            ready == self.ready(now),
    {
        let passed: u64 = if now >= self.deploy_instant {
            now - self.deploy_instant
        } else {
            0
        };
        passed >= self.delay
    }
}

/// What a repeating task asks for after a run.
#[derive(Debug, Clone, Copy, PartialEq, Eq, Structural)]
pub enum ScheduleFlow {
    /// Run again after this many ticks.
    Continue(u64),
    Break,
}

/// The tasks that wait for their delay, in the order of their deployment.
pub struct Scheduler<T> {
    tasks: Vec<DelayedTask<T>>,
    state: bool,
}

/// The tasks among `tasks` whose delay has passed at `now`, as jobs, in order.
pub open spec fn due<T>(tasks: Seq<DelayedTask<T>>, now: u64) -> Seq<Job<T>> {
    tasks.filter(|t: DelayedTask<T>| t.ready(now)).map_values(|t: DelayedTask<T>| Job::Run(t.task))
}

/// The tasks among `tasks` that still have to wait at `now`, in order.
pub open spec fn pending<T>(tasks: Seq<DelayedTask<T>>, now: u64) -> Seq<DelayedTask<T>> {
    tasks.filter(|t: DelayedTask<T>| !t.ready(now))
}

impl<T> Scheduler<T> {
    pub closed spec fn tasks(&self) -> Seq<DelayedTask<T>> {
        self.tasks@
    }

    /// Whether the scheduler is asked to go on.
    pub closed spec fn running(&self) -> bool {
        self.state
    }

    /// A running scheduler without tasks.
    pub fn launch() -> (scheduler: Self)
        ensures
            scheduler.tasks() == Seq::<DelayedTask<T>>::empty(),
            scheduler.running(),
    {
        Scheduler { tasks: Vec::new(), state: true }
    }

    pub fn is_running(&self) -> (running: bool)
        ensures
            running == self.running(),
    {
        self.state
    }

    /// Holds `task` back for `delay` ticks from `now`.
    pub fn deploy(&mut self, task: T, delay: u64, now: u64)
        ensures
            final(self).tasks() == old(self).tasks().push(
                DelayedTask { task, deploy_instant: now, delay },
            ),
            final(self).running() == old(self).running(),
    {
        self.tasks.push(DelayedTask::new(task, delay, now));
    }

    /// Asks the scheduler to stop; its tasks stay where they are.
    pub fn shutdown(&mut self)
        ensures
            !final(self).running(),
            final(self).tasks() == old(self).tasks(),
    {
        self.state = false;
    }

    /// One round of the scheduler at the tick `now`: every task whose delay has
    /// passed moves to the end of the dispatcher's queue, in deployment order;
    /// the others stay, in their order. The answer counts the moved tasks, each
    /// of which wakes one worker.
    pub fn promote(&mut self, now: u64, dispatcher: &mut Dispatcher<T>) -> (moved: usize)
        ensures
            final(self).tasks() == pending(old(self).tasks(), now),
            final(self).running() == old(self).running(),
            final(dispatcher).queue() == old(dispatcher).queue() + due(old(self).tasks(), now),
            final(dispatcher).states() == old(dispatcher).states(),
            moved == due(old(self).tasks(), now).len(),
    {
        let ghost given = self.tasks@;
        let total = self.tasks.len();
        let ghost stays = |t: DelayedTask<T>| !t.ready(now);
        let ghost goes = |t: DelayedTask<T>| t.ready(now);
        let ghost job = |t: DelayedTask<T>| Job::Run(t.task);
        let ghost mut seen: int = 0;
        let mut moved: usize = 0;
        let mut i: usize = 0;
        while i < self.tasks.len()
            invariant
                0 <= seen <= given.len(),
                i == given.take(seen).filter(stays).len(),
                moved == given.take(seen).filter(goes).len(),
                moved <= seen,
                given.len() == total,
                self.tasks@ == given.take(seen).filter(stays) + given.skip(seen),
                dispatcher.deque@ == old(dispatcher).deque@ + given.take(seen).filter(
                    goes,
                ).map_values(job),
                dispatcher.states@ == old(dispatcher).states@,
                self.state == old(self).state,
                given == old(self).tasks@,
                stays == |t: DelayedTask<T>| !t.ready(now),
                goes == |t: DelayedTask<T>| t.ready(now),
                job == |t: DelayedTask<T>| Job::Run(t.task),
            decreases given.len() - seen,
        {
            proof {
                given.take(seen).lemma_filter_push(given[seen], stays);
                given.take(seen).lemma_filter_push(given[seen], goes);
                assert(given.take(seen).push(given[seen]) =~= given.take(seen + 1));
                assert(self.tasks@[i as int] == given[seen]);
            }
            if self.tasks[i].is_ready(now) {
                let task = self.tasks.remove(i);
                dispatcher.deque.push_back(Job::Run(task.task));
                proof {
                    assert(self.tasks@ =~= given.take(seen + 1).filter(stays) + given.skip(
                        seen + 1,
                    ));
                    assert(dispatcher.deque@ =~= old(dispatcher).deque@ + given.take(
                        seen + 1,
                    ).filter(goes).map_values(job));
                    seen = seen + 1;
                }
                moved += 1;
            } else {
                proof {
                    assert(self.tasks@ =~= given.take(seen + 1).filter(stays) + given.skip(
                        seen + 1,
                    ));
                    seen = seen + 1;
                }
                i += 1;
            }
        }
        proof {
            assert(given.skip(seen).len() == 0);
            assert(given.take(seen) =~= given);
            assert(self.tasks@ =~= given.filter(stays));
        }
        moved
    }

    /// After a run of a repeating task that asked for `flow`: to continue, the
    /// task is held back again for the ticks it asked for; to break, it is dropped.
    /// The answer says whether the task was deployed again.
    pub fn deploy_dynamic(&mut self, task: T, flow: ScheduleFlow, now: u64) -> (again: bool)
        ensures
            final(self).running() == old(self).running(),
            match flow {
                ScheduleFlow::Continue(delay) => again && final(self).tasks() == old(self).tasks().push(DelayedTask { task, deploy_instant: now, delay }),
                ScheduleFlow::Break => !again && final(self).tasks() == old(self).tasks(),
            },
    {
        match flow {
            ScheduleFlow::Continue(delay) => {
                self.deploy(task, delay, now);
                true
            },
            ScheduleFlow::Break => false,
        }
    }

    /// After run number `count`, counted downward, of a task that repeats every
    /// `interval` ticks: while more than one run was left the task is held back
    /// again, and the answer is the count of its next run.
    pub fn deploy_repeat(&mut self, count: usize, interval: u64, task: T, now: u64) -> (next: Option<
        usize,
    >)
        ensures
            final(self).running() == old(self).running(),
            count > 1 ==> next == Some((count - 1) as usize) && final(self).tasks() == old(self).tasks().push(DelayedTask { task, deploy_instant: now, delay: interval }),
            count <= 1 ==> next is None && final(self).tasks() == old(self).tasks(),
    {
        if count > 1 {
            self.deploy(task, interval, now);
            Some(count - 1)
        } else {
            None
        }
    }
}

} // verus!
