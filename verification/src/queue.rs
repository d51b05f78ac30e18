//! The queue itself, and the steps of the calls that contend for it.

use vstd::prelude::*;

use std::collections::VecDeque;

use crate::externally_synchronized::UnsafeMutexCell;
use crate::interface::{MutexInfo, MutexMisuse, PanicOptions, ProcessResult, ProcessStep};
use crate::model::{Batch, Event, QueueView};
use crate::poisoning::{PoisonError, PoisonPanic, UnwrapPoison};
use crate::queue_handle::QueueHandle;
use crate::queue_state::{task_mut, FrontExclusive, MutexExclusive};
use crate::task::{ErasedTask, Task};
use crate::task_state::TaskState;

verus! {

/// What a waiting call learns when its task has reached the front.
#[derive(Debug)]
pub enum TaskWaitResult<T> {
    /// Nobody has taken the task's value.
    Process(T),
    /// The call that took the task's value has returned.
    ProcessedElsewhere,
    /// The call that took the task's value has panicked.
    ProcessingPanicked,
}

impl<T> TaskWaitResult<T> {
    pub open spec fn value(self) -> Option<T> {
        match self {
            TaskWaitResult::Process(value) => Some(value),
            _ => None,
        }
    }
}

/// What a call does once it is at the front.
#[derive(Debug)]
pub enum Arrival<V> {
    /// It panics.
    Panic(PoisonPanic),
    /// It processes its value.
    Run(V),
    /// It returns, its value having been processed by a call that has returned.
    ProcessedElsewhere,
    /// It returns, its value having been taken by a call that has panicked.
    ProcessingPanicked,
}

/// A `ContentionQueue` can improve the performance of executing tasks which are processed one at
/// a time and may be started from multiple threads.
///
/// # Concurrency
///
/// It provides mutual exclusion over a resource, which can be accessed by the task at the front
/// of the queue. Pushing a new task requires a mutex to be held, but that mutex can be released
/// while processing the front task. The front task also has the ability to peek at and pop
/// following tasks in the queue, enabling tasks to be merged together for the sake of efficiency.
///
/// If a task is pushed into a queue when the queue was empty, it entirely skips the process of
/// waiting to be at the front of the queue.
///
/// Once the task at the front of the queue finishes being processed, it is popped from the queue
/// and any tasks that had been popped and merged into that front task are woken up in order. Once
/// all the processed are woken up, the following unprocessed task (if any) is woken up.
///
/// If processing a task panics, the queue becomes poisoned, and the panic may be propagated to
/// following tasks. However, the queue itself remains in a logically valid state, and poison may
/// be ignored.
///
/// # Calls
///
/// A call is a sequence of steps, each of which is taken while the call's thread holds the mutex.
/// The first is [`ContentionQueue::process`] (or [`ContentionQueue::lock_and_process`]). Each step
/// says, by a [`ProcessStep`], what the thread does next. A thread that is told to wait takes the
/// step [`ContentionQueue::resume`] whenever it wakes up. A thread that is told to process its
/// value runs its callback with a [`QueueHandle`], and then takes the step
/// [`ContentionQueue::finish`]; if the callback panics, and also if the thread is told to panic,
/// the step is [`ContentionQueue::finish_panicking`] instead.
///
/// The steps on the way to the front are made of smaller ones, which are there for themselves as
/// well: to go to the front ([`ContentionQueue::try_acquire_front_fast`] or
/// [`ContentionQueue::try_wait_until_at_front`]) or else to queue up
/// ([`ContentionQueue::push_task`]), to decide what to do there
/// ([`ContentionQueue::try_process_unchecked`]), and to go on with that
/// ([`ContentionQueue::go_on`]). The mutex is held from the first to the last of these.
///
/// The thread that a step says to wake is named by the address of its condition variable. Nothing
/// is lost if the mutex is held from a step until the thread has been notified: the woken thread
/// cannot take a step before that.
pub struct ContentionQueue<FS, V> {
    /// The address of the mutex that the queue is used with, or `0` before the first use.
    mutex_address: usize,
    options: PanicOptions,
    /// The state that only the call at the front accesses. That call holds it for as long as it
    /// is at the front.
    front_exclusive: UnsafeMutexCell<Option<FrontExclusive<FS>>>,
    /// The state that is accessed only while the mutex is held.
    mutex_exclusive: UnsafeMutexCell<MutexExclusive<V>>,
}

impl<FS, V> View for ContentionQueue<FS, V> {
    type V = QueueView<FS, V>;

    closed spec fn view(&self) -> QueueView<FS, V> {
        QueueView {
            mutex_address: self.mutex_address,
            options: self.options,
            front_state: match self.front_exclusive@ {
                Some(front_exclusive) => Some(front_exclusive.front_state),
                None => None,
            },
            front_locked: self.mutex_exclusive@.front_locked,
            queue_poisoned: self.mutex_exclusive@.queue_poisoned,
            queue: self.mutex_exclusive@.tasks(),
            batch: self.mutex_exclusive@.batch@,
        }
    }
}

impl<FS, V> ContentionQueue<FS, V> {
    /// Construct a new [`ContentionQueue`].
    ///
    /// In addition to its primary role of improving the performance of contending tasks, the queue
    /// provides mutual exclusion over `front_state` by ensuring that only the task at the
    /// front of the queue can access it.
    ///
    /// By default, poison is unwrapped (leading to panics if poison is encountered, thereby
    /// propagating whichever panic caused the poison to begin with).
    #[must_use]
    pub fn new(front_state: FS) -> (queue: Self)
        ensures
            queue@ == QueueView::<FS, V>::init(
                front_state,
                PanicOptions { unwrap_mutex_poison: true, unwrap_queue_poison: true },
            ),
            queue@.wf(),
            queue@.options.unwrap_mutex_poison,
            queue@.options.unwrap_queue_poison,
            queue@.front_state == Some(front_state),
    {
        let default_options = PanicOptions { unwrap_mutex_poison: true, unwrap_queue_poison: true };
        Self::new_with_options(front_state, default_options)
    }

    /// Construct a new [`ContentionQueue`].
    ///
    /// In addition to its primary role of improving the performance of contending tasks, the queue
    /// provides mutual exclusion over `front_state` by ensuring that only the task at the
    /// front of the queue can access it.
    #[must_use]
    pub fn new_with_options(front_state: FS, options: PanicOptions) -> (queue: Self)
        ensures
            queue@ == QueueView::<FS, V>::init(front_state, options),
            queue@.wf(),
            queue@.options.unwrap_mutex_poison == options.unwrap_mutex_poison,
            queue@.options.unwrap_queue_poison == options.unwrap_queue_poison,
            queue@.front_state == Some(front_state),
            queue@.mutex_address == 0,
            !queue@.queue_poisoned,
    {
        let queue = Self {
            mutex_address: 0,
            options,
            front_exclusive: UnsafeMutexCell::new(Some(FrontExclusive { front_state })),
            mutex_exclusive: UnsafeMutexCell::new(
                MutexExclusive {
                    front_locked: false,
                    queue_poisoned: false,
                    queue: VecDeque::new(),
                    batch: Ghost(Batch::Completed),
                },
            ),
        };
        proof {
            assert(queue@.queue =~= Seq::empty());
            assert(queue@.absorbed(0));
        }
        queue
    }

    /// Remembers the first mutex that is used with the queue, and rejects any mutex that is not
    /// located at the same address in memory.
    pub fn assert_mutex_good(&mut self, mutex: MutexInfo) -> (good: Result<(), MutexMisuse>)
        requires
            old(self)@.wf(),
        ensures
            final(self)@ == old(self)@.bind(mutex),
            final(self)@.wf(),
            good == (match old(self)@.misuse(mutex) {
                Some(misuse) => Err::<(), MutexMisuse>(misuse),
                None => Ok::<(), MutexMisuse>(()),
            }),
            good is Ok ==> final(self)@.mutex_address == mutex.address,
            good is Err ==> mutex.size == 0 || final(self)@.mutex_address != mutex.address,
    {
        proof {
            crate::lemmas::lemma_bind(self@, mutex);
        }
        if self.mutex_address == 0 {
            self.mutex_address = mutex.address;
        } else if self.mutex_address != mutex.address {
            return Err(MutexMisuse::DifferentMutex);
        }
        if mutex.size == 0 {
            return Err(MutexMisuse::ZeroSized);
        }
        Ok(())
    }

    #[must_use]
    pub(crate) fn mutex_exclusive(&self) -> (mutex_exclusive: &MutexExclusive<V>)
        ensures
            mutex_exclusive.front_locked == self@.front_locked,
            mutex_exclusive.queue_poisoned == self@.queue_poisoned,
            mutex_exclusive.tasks() == self@.queue,
            mutex_exclusive.batch@ == self@.batch,
    {
        self.mutex_exclusive.get()
    }

    #[must_use]
    pub(crate) fn mutex_exclusive_mut(&mut self) -> (mutex_exclusive: &mut MutexExclusive<V>)
        ensures
            mutex_exclusive.front_locked == old(self)@.front_locked,
            mutex_exclusive.queue_poisoned == old(self)@.queue_poisoned,
            mutex_exclusive.tasks() == old(self)@.queue,
            mutex_exclusive.batch@ == old(self)@.batch,
            final(self)@ == (QueueView {
                front_locked: final(mutex_exclusive).front_locked,
                queue_poisoned: final(mutex_exclusive).queue_poisoned,
                queue: final(mutex_exclusive).tasks(),
                batch: final(mutex_exclusive).batch@,
                ..old(self)@
            }),
    {
        self.mutex_exclusive.get_mut()
    }

    /// Goes to the front if nobody is there. The front state that is then returned is the proof
    /// of exclusive access.
    pub fn try_acquire_front_fast(&mut self) -> (front_state: Option<FS>)
        requires
            old(self)@.wf(),
        ensures
            match front_state {
                Some(front_state) => {
                    &&& !old(self)@.front_locked
                    &&& old(self)@.front_state == Some(front_state)
                    &&& final(self)@ == old(self)@.acquire_front()
                    &&& final(self)@.arrived()
                    &&& final(self)@.absorbed(0)
                },
                None => old(self)@.front_locked && final(self)@ == old(self)@,
            },
    {
        if self.mutex_exclusive.get().front_locked {
            None
        } else {
            self.mutex_exclusive_mut().front_locked = true;
            let front_state = self.take_front_state();
            assert(self@.absorbed(0));
            Some(front_state)
        }
    }

    /// Takes the front state out of the queue.
    fn take_front_state(&mut self) -> (front_state: FS)
        requires
            old(self)@.front_state is Some,
        ensures
            old(self)@.front_state == Some(front_state),
            final(self)@ == (QueueView { front_state: None, ..old(self)@ }),
    {
        self.front_exclusive.get_mut().take().unwrap().front_state
    }

    /// Adds a task to the end of the queue, while somebody is at the front or about to be. Its call
    /// then waits on the condition variable at the address `condvar`.
    pub fn push_task(&mut self, condvar: usize, value: V)
        requires
            old(self)@.wf(),
            old(self)@.front_locked,
            !old(self)@.waits(condvar),
        ensures
            final(self)@ == old(self)@.push(condvar, value),
            final(self)@.wf(),
            final(self)@.waits(condvar),
    {
        proof {
            crate::lemmas::lemma_push(self@, condvar, value);
        }
        let task = Task { state: TaskState::new(condvar), value: Some(value) };
        let erased_task = ErasedTask::new(task);
        self.mutex_exclusive_mut().queue.push_back(erased_task);
        assert(self@.queue =~= old(self)@.push(condvar, value).queue);
        assert(self@.queue[old(self)@.queue.len() as int].condvar == condvar);
    }

    /// Goes to the front if the task that waits on `condvar` has been woken: the task is popped,
    /// and the front state is returned, together with what has become of the task's value.
    pub fn try_wait_until_at_front(&mut self, condvar: usize) -> (at_front: Option<
        (FS, TaskWaitResult<V>),
    >)
        requires
            old(self)@.wf(),
        ensures
            match at_front {
                Some((front_state, result)) => {
                    &&& old(self)@.at_front(condvar)
                    &&& old(self)@.front_state == Some(front_state)
                    &&& result.value() == old(self)@.queue[0].value
                    &&& result matches TaskWaitResult::Process(value) ==> old(self)@.queue[0].value
                        == Some(value)
                    &&& result.value() is None ==> (result is ProcessingPanicked
                        <==> old(self)@.queue[0].panicked)
                    &&& final(self)@ == old(self)@.pop_front()
                    &&& final(self)@.arrived()
                    &&& final(self)@.told_truly(result.value(), result is ProcessingPanicked)
                    &&& !final(self)@.waits(condvar)
                },
                None => !old(self)@.at_front(condvar) && final(self)@ == old(self)@,
            },
    {
        proof {
            crate::lemmas::lemma_resume::<FS, V, ()>(self@, false, condvar);
            if self@.at_front(condvar) {
                crate::lemmas::lemma_pop_front(self@);
            }
        }
        let mutex_exclusive = self.mutex_exclusive();
        if mutex_exclusive.queue.len() == 0 {
            return None;
        }
        let first_task = mutex_exclusive.queue[0].inner();
        assert(first_task@ == self@.queue[0]);
        if first_task.state.waits_on() != condvar {
            return None;
        }
        match first_task.state.wait_until_at_front() {
            None => None,
            Some(processing_panicked) => {
                let this_task = self.mutex_exclusive_mut().queue.pop_front();
                let this_task = this_task.unwrap().into_inner();
                assert(self@.queue =~= old(self)@.pop_front().queue);
                assert forall|i: int| 0 <= i < self@.queue.len() implies (
                #[trigger] self@.queue[i]).condvar != condvar by {
                    assert(self@.queue[i] == old(self)@.queue[i + 1]);
                    assert(old(self)@.queue[0].condvar != old(self)@.queue[i + 1].condvar);
                }
                let result = match this_task.value {
                    Some(this_value) => TaskWaitResult::Process(this_value),
                    None => if processing_panicked.0 {
                        TaskWaitResult::ProcessingPanicked
                    } else {
                        TaskWaitResult::ProcessedElsewhere
                    },
                };
                Some((self.take_front_state(), result))
            },
        }
    }

    /// Leaves the front to the call whose task is the first, or to nobody. The caller then notifies
    /// the condition variable whose address is returned, if there is one.
    fn leave_front(&mut self, front_state: FS, panicking: bool) -> (wake: Option<usize>)
        requires
            old(self)@.front_state is None,
        ensures
            final(self)@ == old(self)@.leave_front(front_state, panicking),
            wake == old(self)@.next_waiter(),
    {
        *self.front_exclusive.get_mut() = Some(FrontExclusive { front_state });
        let mutex_exclusive = self.mutex_exclusive.get_mut();
        match task_mut(&mut mutex_exclusive.queue, 0) {
            Some(next_front_task) => {
                let state = next_front_task.state_mut();
                let condvar: usize = if panicking {
                    state.wake_front_task_panicking()
                } else {
                    state.wake_front_task()
                };
                assert(self@.queue =~= old(self)@.leave_front(front_state, panicking).queue);
                Some(condvar)
            },
            None => {
                mutex_exclusive.front_locked = false;
                assert(self@.queue =~= old(self)@.queue);
                None
            },
        }
    }

    /// What a call does that has just come to the front. Whatever that is, the call still has the
    /// front afterwards: it has neither released it nor passed it on, and has woken nobody.
    pub fn try_process_unchecked(
        &mut self,
        result: TaskWaitResult<V>,
        mutex_poisoned: bool,
    ) -> (what: Arrival<V>)
        requires
            old(self)@.arrived(),
            old(self)@.told_truly(result.value(), result is ProcessingPanicked),
        ensures
            what == crate::model::arrival(
                old(self)@.options,
                old(self)@.queue_poisoned,
                mutex_poisoned,
                result.value(),
                result is ProcessingPanicked,
            ),
            what is Run <==> result is Process && !(old(self)@.options.unwrap_queue_poison && old(
                self,
            )@.queue_poisoned) && !(old(self)@.options.unwrap_mutex_poison && mutex_poisoned),
            what matches Arrival::Run(value) ==> result == TaskWaitResult::Process(value),
            final(self)@ == old(self)@.begin(what),
            final(self)@.can_go_on(what),
            final(self)@.front_locked,
            final(self)@.front_state is None,
            final(self)@.queue == old(self)@.queue,
    {
        proof {
            crate::lemmas::lemma_begin(
                self@,
                result.value(),
                result is ProcessingPanicked,
                mutex_poisoned,
            );
        }
        if self.options.unwrap_queue_poison && self.mutex_exclusive().queue_poisoned {
            return Arrival::Panic(PoisonPanic::QueuePoisoned);
        }
        match result {
            TaskWaitResult::Process(value) => {
                if self.options.unwrap_mutex_poison && mutex_poisoned {
                    return Arrival::Panic(PoisonPanic::MutexPoisoned);
                }
                self.mutex_exclusive_mut().batch = Ghost(Batch::Running);
                Arrival::Run(value)
            },
            TaskWaitResult::ProcessedElsewhere => Arrival::ProcessedElsewhere,
            TaskWaitResult::ProcessingPanicked => Arrival::ProcessingPanicked,
        }
    }

    /// Goes on with a call that is at the front. A call that has nothing to do but to return leaves
    /// the front.
    pub fn go_on<R>(&mut self, front_state: FS, what: Arrival<V>) -> (step: ProcessStep<FS, V, R>)
        requires
            old(self)@.can_go_on(what),
        ensures
            (final(self)@, step) == old(self)@.go_on::<R>(front_state, what),
            final(self)@.wf(),
            step is Run ==> final(self)@.processing() && final(self)@.absorbed(0),
            step is Panic ==> final(self)@.active(),
            step is Return ==> (final(self)@.front_locked <==> final(self)@.queue.len() > 0),
    {
        proof {
            crate::lemmas::lemma_go_on::<FS, V, R>(self@, front_state, what);
        }
        match what {
            Arrival::Panic(reason) => ProcessStep::Panic { reason, front_state },
            Arrival::Run(value) => ProcessStep::Run { value, front_state },
            Arrival::ProcessedElsewhere => {
                let wake = self.leave_front(front_state, false);
                ProcessStep::Return { result: ProcessResult::ProcessedElsewhere, wake }
            },
            Arrival::ProcessingPanicked => {
                let wake = self.leave_front(front_state, true);
                ProcessStep::Return { result: ProcessResult::ProcessingPanicked, wake }
            },
        }
    }

    /// A call's first step with a mutex that is in order.
    pub fn process_unchecked<R>(&mut self, mutex_poisoned: bool, condvar: usize, value: V) -> (step:
        ProcessStep<FS, V, R>)
        requires
            old(self)@.wf(),
            !old(self)@.waits(condvar),
        ensures
            (final(self)@, step) == old(self)@.enter::<R>(mutex_poisoned, condvar, value),
            final(self)@.wf(),
            step is Wait <==> final(self)@.waits(condvar),
            step is Run ==> final(self)@.processing() && final(self)@.absorbed(0),
            step is Panic ==> final(self)@.active(),
            step is Return ==> (final(self)@.front_locked <==> final(self)@.queue.len() > 0),
    {
        match self.try_acquire_front_fast() {
            Some(front_state) => {
                let result = TaskWaitResult::Process(value);
                let what = self.try_process_unchecked(result, mutex_poisoned);
                self.go_on(front_state, what)
            },
            None => {
                self.push_task(condvar, value);
                ProcessStep::Wait
            },
        }
    }

    /// Queue a task to be processed: the first step of a call.
    ///
    /// At most one task will be processed at a time; excess tasks will be pushed onto a queue.
    /// Each task has the opportunity to pop other tasks off that queue in order to merge
    /// concurrent tasks together. If a task reaches the front of the queue (without being
    /// processed by something else), then its call is told to process `value`.
    ///
    /// (Semantically, a task that reaches the front of the queue is considered to be at the front
    /// for the whole duration of its processing; the popped tasks are popped out directly from the
    /// second position in the queue.)
    ///
    /// `condvar` is the address of the condition variable on which the call waits, if it has to.
    pub fn process<R>(&mut self, mutex: MutexInfo, condvar: usize, value: V) -> (step: ProcessStep<
        FS,
        V,
        R,
    >)
        requires
            old(self)@.wf(),
            !old(self)@.waits(condvar),
        ensures
            (final(self)@, step) == old(self)@.process::<R>(mutex, condvar, value),
            final(self)@.wf(),
            step is Wait <==> final(self)@.waits(condvar),
            step is Run ==> final(self)@.processing() && final(self)@.absorbed(0),
            step is Panic ==> final(self)@.active(),
            step is Return ==> (final(self)@.front_locked <==> final(self)@.queue.len() > 0),
    {
        proof {
            crate::lemmas::lemma_process::<FS, V, R>(self@, mutex, condvar, value);
            crate::laws::law_queue_keeps_only_waiting_tasks::<FS, V, R>(
                self@,
                Event::Process { mutex, condvar, value },
                condvar,
            );
        }
        match self.assert_mutex_good(mutex) {
            Err(misuse) => ProcessStep::Misused(misuse),
            Ok(()) => self.process_unchecked(mutex.poisoned, condvar, value),
        }
    }

    /// Acquires the mutex and queues a task to be processed: as [`ContentionQueue::process`], for
    /// a call that begins by locking the mutex. `lock` is what locking it gave.
    ///
    /// If the mutex is poisoned, and the options say to unwrap that poison, the call panics
    /// before it has anything to do with the queue.
    pub fn lock_and_process<G, R>(
        &mut self,
        lock: Result<G, PoisonError<G>>,
        mutex: MutexInfo,
        condvar: usize,
        value: V,
    ) -> (locked: Result<(G, ProcessStep<FS, V, R>), PoisonPanic>)
        requires
            old(self)@.wf(),
            !old(self)@.waits(condvar),
        ensures
            match locked {
                Ok((guard, step)) => {
                    &&& !(old(self)@.options.unwrap_mutex_poison && lock is Err)
                    &&& guard == crate::poisoning::locked_guard(lock)
                    &&& (final(self)@, step) == old(self)@.process::<R>(mutex, condvar, value)
                    &&& step is Wait <==> final(self)@.waits(condvar)
                    &&& step is Run ==> final(self)@.processing() && final(self)@.absorbed(0)
                    &&& step is Panic ==> final(self)@.active()
                    &&& step is Return ==> (final(self)@.front_locked
                        <==> final(self)@.queue.len() > 0)
                },
                Err(reason) => {
                    &&& old(self)@.options.unwrap_mutex_poison && lock is Err
                    &&& reason is LockPoisoned
                    &&& final(self)@ == old(self)@
                },
            },
            final(self)@.wf(),
    {
        match lock.unwrap_poison(self.options.unwrap_mutex_poison) {
            Ok(guard) => {
                let step = self.process(mutex, condvar, value);
                Ok((guard, step))
            },
            Err(reason) => Err(reason),
        }
    }

    /// The step of a call that was told to wait on the condition variable at the address
    /// `condvar`, and that has woken up, for whatever reason, and holds the mutex again.
    pub fn resume<R>(&mut self, mutex_poisoned: bool, condvar: usize) -> (step: ProcessStep<
        FS,
        V,
        R,
    >)
        requires
            old(self)@.wf(),
            old(self)@.waits(condvar),
        ensures
            (final(self)@, step) == old(self)@.resume::<R>(mutex_poisoned, condvar),
            final(self)@.wf(),
            step is Wait <==> final(self)@.waits(condvar),
            step is Run ==> final(self)@.processing() && final(self)@.absorbed(0),
            step is Panic ==> final(self)@.active(),
            step is Return ==> (final(self)@.front_locked <==> final(self)@.queue.len() > 0),
    {
        proof {
            crate::lemmas::lemma_resume::<FS, V, R>(self@, mutex_poisoned, condvar);
            crate::laws::law_queue_keeps_only_waiting_tasks::<FS, V, R>(
                self@,
                Event::Resume { mutex_poisoned, condvar },
                condvar,
            );
        }
        match self.try_wait_until_at_front(condvar) {
            Some((front_state, result)) => {
                let what = self.try_process_unchecked(result, mutex_poisoned);
                self.go_on(front_state, what)
            },
            None => ProcessStep::Wait,
        }
    }

    /// The last step of a call that has processed its value. The caller then notifies the
    /// condition variable whose address is returned, if there is one.
    pub fn finish<L, M, R>(&mut self, handle: QueueHandle<L, M>, front_state: FS, output: R) -> (
        finished: (M, ProcessResult<R>, Option<usize>))
        requires
            handle.serves(old(self)@),
        ensures
            Some(finished.0) == handle.guard(),
            finished.1 == ProcessResult::Processed(output),
            finished.2 == old(self)@.next_waiter(),
            final(self)@ == old(self)@.finish(front_state),
            final(self)@.wf(),
            final(self)@.front_locked <==> final(self)@.queue.len() > 0,
    {
        proof {
            crate::lemmas::lemma_finish(self@, front_state);
        }
        self.mutex_exclusive_mut().batch = Ghost(Batch::Completed);
        let wake = self.leave_front(front_state, false);
        (handle.into_guard(), ProcessResult::Processed(output), wake)
    }

    /// The last step of a call that has panicked at the front, and that has locked the mutex again
    /// (ignoring poison) after the panic. The caller then notifies the condition variable whose
    /// address is returned, if there is one, and lets the panic continue.
    pub fn finish_panicking(&mut self, front_state: FS) -> (wake: Option<usize>)
        requires
            old(self)@.wf(),
            old(self)@.active(),
        ensures
            wake == old(self)@.next_waiter(),
            final(self)@ == old(self)@.finish_panicking(front_state),
            final(self)@.wf(),
            final(self)@.front_locked <==> final(self)@.queue.len() > 0,
    {
        proof {
            crate::lemmas::lemma_finish_panicking(self@, front_state);
        }
        let mutex_exclusive = self.mutex_exclusive_mut();
        mutex_exclusive.queue_poisoned = true;
        mutex_exclusive.batch = Ghost(
            if mutex_exclusive.batch@ is Running {
                Batch::Panicked
            } else {
                mutex_exclusive.batch@
            },
        );
        self.leave_front(front_state, true)
    }

    /// Whether the queue itself (not the associated mutex) is poisoned.
    ///
    /// See [`PanicOptions`] for more information.
    pub fn is_queue_poisoned(&mut self, mutex: MutexInfo) -> (poisoned: Result<bool, MutexMisuse>)
        requires
            old(self)@.wf(),
        ensures
            final(self)@ == old(self)@.bind(mutex),
            final(self)@.wf(),
            poisoned == (match old(self)@.misuse(mutex) {
                Some(misuse) => Err::<bool, MutexMisuse>(misuse),
                None => Ok::<bool, MutexMisuse>(old(self)@.queue_poisoned),
            }),
    {
        match self.assert_mutex_good(mutex) {
            Ok(()) => Ok(self.mutex_exclusive().queue_poisoned),
            Err(misuse) => Err(misuse),
        }
    }

    /// Clear the poison of the queue itself (not the associated mutex).
    ///
    /// See [`PanicOptions`] for more information.
    pub fn clear_queue_poison(&mut self, mutex: MutexInfo) -> (cleared: Result<(), MutexMisuse>)
        requires
            old(self)@.wf(),
        ensures
            match cleared {
                Ok(()) => {
                    &&& old(self)@.misuse(mutex) is None
                    &&& final(self)@ == old(self)@.bind(mutex).clear_poison()
                    &&& !final(self)@.queue_poisoned
                },
                Err(misuse) => {
                    &&& old(self)@.misuse(mutex) == Some(misuse)
                    &&& final(self)@ == old(self)@.bind(mutex)
                },
            },
            final(self)@.wf(),
    {
        match self.assert_mutex_good(mutex) {
            Ok(()) => {
                proof {
                    crate::lemmas::lemma_clear_poison(self@);
                }
                self.mutex_exclusive_mut().queue_poisoned = false;
                Ok(())
            },
            Err(misuse) => Err(misuse),
        }
    }
}

} // verus!
