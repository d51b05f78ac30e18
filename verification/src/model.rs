//! The queue as a mathematical object: its states, which of them are well formed, and what each
//! step of a call does to them.

use vstd::prelude::*;

use crate::interface::{MutexInfo, MutexMisuse, PanicOptions, ProcessResult, ProcessStep};
use crate::poisoning::PoisonPanic;
use crate::queue::Arrival;

verus! {

/// One queued task.
pub ghost struct TaskView<V> {
    /// The condition variable on which the task's call waits.
    pub condvar: usize,
    /// Whether the task has been woken, being at the front.
    pub at_front: bool,
    /// Whether whoever woke the task said that the call which may have processed it panicked.
    pub panicked: bool,
    /// The task's value, unless another call has taken it.
    pub value: Option<V>,
}

impl<V> TaskView<V> {
    /// The task has not been woken.
    pub open spec fn asleep(self) -> bool {
        !self.at_front && !self.panicked
    }
}

/// What has become of the call that was the last to process its own value, and that alone can
/// have taken the values which queued tasks have lost.
pub ghost enum Batch {
    /// It is still processing.
    Running,
    /// It has returned.
    Completed,
    /// It has panicked.
    Panicked,
}

/// A call at the front panics if the queue is poisoned and the options say so; processes its
/// value if that has not been taken (unless the mutex is poisoned and the options say to panic
/// then); and otherwise only reports what became of its value.
pub open spec fn arrival<V>(
    options: PanicOptions,
    queue_poisoned: bool,
    mutex_poisoned: bool,
    value: Option<V>,
    panicked: bool,
) -> Arrival<V> {
    if options.unwrap_queue_poison && queue_poisoned {
        Arrival::Panic(PoisonPanic::QueuePoisoned)
    } else {
        match value {
            Some(value) => if options.unwrap_mutex_poison && mutex_poisoned {
                Arrival::Panic(PoisonPanic::MutexPoisoned)
            } else {
                Arrival::Run(value)
            },
            None => if panicked {
                Arrival::ProcessingPanicked
            } else {
                Arrival::ProcessedElsewhere
            },
        }
    }
}

/// The state of a queue.
#[verifier::ext_equal]
pub ghost struct QueueView<FS, V> {
    /// The address of the mutex that the queue is used with, or `0` before the first use.
    pub mutex_address: usize,
    pub options: PanicOptions,
    /// The resource to which the call at the front has exclusive access. That call holds it; it
    /// is here while no call is at the front.
    pub front_state: Option<FS>,
    /// Whether some call is at the front, or is about to be.
    pub front_locked: bool,
    /// Whether a call has panicked since poison was last cleared.
    pub queue_poisoned: bool,
    /// The tasks of the calls that wait to be at the front, in the order in which they came.
    pub queue: Seq<TaskView<V>>,
    pub batch: Batch,
}

impl<FS, V> QueueView<FS, V> {
    /// Exactly the first `n` tasks have lost their values.
    pub open spec fn absorbed(self, n: int) -> bool {
        &&& 0 <= n <= self.queue.len()
        &&& forall|i: int|
            0 <= i < self.queue.len() ==> ((#[trigger] self.queue[i]).value is None <==> i < n)
    }

    /// No two calls wait on the same condition variable.
    pub open spec fn condvars_distinct(self) -> bool {
        forall|i: int, j: int|
            0 <= i < j < self.queue.len() ==> (#[trigger] self.queue[i]).condvar != (
            #[trigger] self.queue[j]).condvar
    }

    /// Some call waits on `condvar`.
    pub open spec fn waits(self, condvar: usize) -> bool {
        exists|i: int| 0 <= i < self.queue.len() && (#[trigger] self.queue[i]).condvar == condvar
    }

    /// Nobody is at the front, and nobody waits.
    pub open spec fn idle(self) -> bool {
        &&& !self.front_locked
        &&& self.front_state is Some
        &&& self.queue.len() == 0
        &&& !(self.batch is Running)
    }

    /// The first task has been woken, and only that one. If its value has been taken, it was told
    /// truly whether the call that took the value panicked.
    pub open spec fn handed_over(self) -> bool {
        &&& self.front_locked
        &&& self.front_state is Some
        &&& self.queue.len() > 0
        &&& self.queue[0].at_front
        &&& forall|i: int| 1 <= i < self.queue.len() ==> (#[trigger] self.queue[i]).asleep()
        &&& !(self.batch is Running)
        &&& self.queue[0].value is None ==> (self.queue[0].panicked <==> self.batch is Panicked)
        &&& self.queue[0].value is None && self.options.unwrap_queue_poison && self.queue_poisoned
            ==> self.batch is Panicked
    }

    /// A call is at the front, and every other call waits: the call at the front is processing
    /// its value, or it is panicking.
    pub open spec fn active(self) -> bool {
        &&& self.front_locked
        &&& self.front_state is None
        &&& forall|i: int| 0 <= i < self.queue.len() ==> (#[trigger] self.queue[i]).asleep()
        &&& self.batch is Completed ==> self.absorbed(0)
        &&& self.batch is Running && self.options.unwrap_queue_poison ==> !self.queue_poisoned
    }

    /// The states that a queue can be in.
    pub open spec fn wf(self) -> bool {
        &&& exists|n: int| self.absorbed(n)
        &&& self.condvars_distinct()
        &&& self.idle() || self.handed_over() || self.active()
    }

    /// A call is at the front and is processing its own value.
    pub open spec fn processing(self) -> bool {
        &&& self.wf()
        &&& self.active()
        &&& self.batch is Running
    }

    /// A call has come to the front, and has not done anything there yet.
    pub open spec fn arrived(self) -> bool {
        &&& exists|n: int| self.absorbed(n)
        &&& self.condvars_distinct()
        &&& self.front_locked
        &&& self.front_state is None
        &&& forall|i: int| 0 <= i < self.queue.len() ==> (#[trigger] self.queue[i]).asleep()
        &&& !(self.batch is Running)
    }

    /// What a call that has come to the front knows of its value is true: if it still has its
    /// value, no later task has lost its own, and if not, the call that took the value panicked
    /// exactly if `panicked`.
    pub open spec fn told_truly(self, value: Option<V>, panicked: bool) -> bool {
        &&& value is Some ==> self.absorbed(0)
        &&& value is None ==> (panicked <==> self.batch is Panicked)
        &&& value is None && self.options.unwrap_queue_poison && self.queue_poisoned
            ==> self.batch is Panicked
    }

    /// A call that is at the front can do what `what` says.
    pub open spec fn can_go_on(self, what: Arrival<V>) -> bool {
        match what {
            Arrival::Panic(reason) => self.wf() && self.active(),
            Arrival::Run(value) => self.processing() && self.absorbed(0),
            Arrival::ProcessedElsewhere => self.arrived() && self.told_truly(None, false),
            Arrival::ProcessingPanicked => self.arrived() && self.told_truly(None, true),
        }
    }

    /// A new queue.
    pub open spec fn init(front_state: FS, options: PanicOptions) -> Self {
        QueueView {
            mutex_address: 0,
            options,
            front_state: Some(front_state),
            front_locked: false,
            queue_poisoned: false,
            queue: Seq::empty(),
            batch: Batch::Completed,
        }
    }

    /// What is wrong with using `mutex` for this queue, if anything.
    pub open spec fn misuse(self, mutex: MutexInfo) -> Option<MutexMisuse> {
        if self.mutex_address != 0 && self.mutex_address != mutex.address {
            Some(MutexMisuse::DifferentMutex)
        } else if mutex.size == 0 {
            Some(MutexMisuse::ZeroSized)
        } else {
            None
        }
    }

    /// The first mutex that is used with the queue is the one whose address counts.
    pub open spec fn bind(self, mutex: MutexInfo) -> Self {
        if self.mutex_address == 0 {
            QueueView { mutex_address: mutex.address, ..self }
        } else {
            self
        }
    }

    /// A call goes to the front of a queue that nobody is at the front of.
    pub open spec fn acquire_front(self) -> Self {
        QueueView { front_locked: true, front_state: None, ..self }
    }

    /// A call's task joins the queue.
    pub open spec fn push(self, condvar: usize, value: V) -> Self {
        QueueView {
            queue: self.queue.push(
                TaskView { condvar, at_front: false, panicked: false, value: Some(value) },
            ),
            ..self
        }
    }

    /// The call whose task was the first goes to the front.
    pub open spec fn pop_front(self) -> Self {
        QueueView { front_state: None, queue: self.queue.drop_first(), ..self }
    }

    /// The condition variable of the call that is next to be woken.
    pub open spec fn next_waiter(self) -> Option<usize> {
        if self.queue.len() > 0 {
            Some(self.queue[0].condvar)
        } else {
            None
        }
    }

    /// The call at the front leaves it: to the call whose task is the first, which is woken, or
    /// to nobody.
    pub open spec fn leave_front(self, front_state: FS, panicking: bool) -> Self {
        if self.queue.len() > 0 {
            let first = self.queue[0];
            QueueView {
                front_state: Some(front_state),
                queue: self.queue.update(
                    0,
                    TaskView { at_front: true, panicked: panicking || first.panicked, ..first },
                ),
                ..self
            }
        } else {
            QueueView { front_state: Some(front_state), front_locked: false, ..self }
        }
    }

    /// A call at the front begins to do what `arrival` says. It stays at the front.
    pub open spec fn begin(self, arrival: Arrival<V>) -> Self {
        if arrival is Run {
            QueueView { batch: Batch::Running, ..self }
        } else {
            self
        }
    }

    /// A call at the front goes on to do what `arrival` says: it keeps the front for processing
    /// its value, and for panicking, and it leaves if it has nothing to do but to return.
    ///
    /// A call that learns that its value was being processed by a call which panicked passes
    /// that on to the next call, whose value may have been taken along with its own.
    pub open spec fn go_on<R>(self, front_state: FS, arrival: Arrival<V>) -> (
        Self,
        ProcessStep<FS, V, R>,
    ) {
        match arrival {
            Arrival::Panic(reason) => (self, ProcessStep::Panic { reason, front_state }),
            Arrival::Run(value) => (self, ProcessStep::Run { value, front_state }),
            Arrival::ProcessedElsewhere => (
                self.leave_front(front_state, false),
                ProcessStep::Return {
                    result: ProcessResult::ProcessedElsewhere,
                    wake: self.next_waiter(),
                },
            ),
            Arrival::ProcessingPanicked => (
                self.leave_front(front_state, true),
                ProcessStep::Return {
                    result: ProcessResult::ProcessingPanicked,
                    wake: self.next_waiter(),
                },
            ),
        }
    }

    /// What a call does that has just come to the front, and what that does to the queue.
    pub open spec fn arrive<R>(
        self,
        front_state: FS,
        value: Option<V>,
        panicked: bool,
        mutex_poisoned: bool,
    ) -> (Self, ProcessStep<FS, V, R>) {
        let what = arrival(
            self.options,
            self.queue_poisoned,
            mutex_poisoned,
            value,
            panicked,
        );
        self.begin(what).go_on(front_state, what)
    }

    /// A call's first step with a mutex that is in order: to the front at once if nobody is
    /// there, and otherwise to the end of the queue.
    pub open spec fn enter<R>(self, mutex_poisoned: bool, condvar: usize, value: V) -> (
        Self,
        ProcessStep<FS, V, R>,
    ) {
        if self.front_locked {
            (self.push(condvar, value), ProcessStep::Wait)
        } else {
            self.acquire_front().arrive(
                self.front_state->0,
                Some(value),
                false,
                mutex_poisoned,
            )
        }
    }

    /// A call's first step.
    pub open spec fn process<R>(self, mutex: MutexInfo, condvar: usize, value: V) -> (
        Self,
        ProcessStep<FS, V, R>,
    ) {
        match self.misuse(mutex) {
            Some(misuse) => (self.bind(mutex), ProcessStep::Misused(misuse)),
            None => self.bind(mutex).enter(mutex.poisoned, condvar, value),
        }
    }

    /// The task of the call that waits on `condvar` is at the front.
    pub open spec fn at_front(self, condvar: usize) -> bool {
        &&& self.queue.len() > 0
        &&& self.queue[0].condvar == condvar
        &&& self.queue[0].at_front
    }

    /// The step of a call that has waited on `condvar` and holds the mutex again.
    pub open spec fn resume<R>(self, mutex_poisoned: bool, condvar: usize) -> (
        Self,
        ProcessStep<FS, V, R>,
    ) {
        if self.at_front(condvar) {
            self.pop_front().arrive(
                self.front_state->0,
                self.queue[0].value,
                self.queue[0].panicked,
                mutex_poisoned,
            )
        } else {
            (self, ProcessStep::Wait)
        }
    }

    /// The call at the front takes the value of the `n`-th task.
    pub open spec fn take_value(self, n: int) -> Self {
        QueueView {
            queue: self.queue.update(n, TaskView { value: None, ..self.queue[n] }),
            ..self
        }
    }

    /// The value that the call at the front finds in second place, after it has taken `n` values.
    pub open spec fn next_value(self, n: int) -> Option<V> {
        if n < self.queue.len() {
            self.queue[n].value
        } else {
            None
        }
    }

    /// The call at the front has processed its value.
    pub open spec fn finish(self, front_state: FS) -> Self {
        QueueView { batch: Batch::Completed, ..self }.leave_front(front_state, false)
    }

    /// The call at the front has panicked.
    pub open spec fn finish_panicking(self, front_state: FS) -> Self {
        QueueView {
            queue_poisoned: true,
            batch: if self.batch is Running {
                Batch::Panicked
            } else {
                self.batch
            },
            ..self
        }.leave_front(front_state, true)
    }

    /// The queue is no longer poisoned.
    pub open spec fn clear_poison(self) -> Self {
        QueueView { queue_poisoned: false, ..self }
    }

    /// `event` can happen.
    pub open spec fn allows(self, event: Event<FS, V>) -> bool {
        match event {
            Event::UseMutex { mutex } => true,
            Event::Process { mutex, condvar, value } => !self.waits(condvar),
            Event::Resume { mutex_poisoned, condvar } => self.waits(condvar),
            Event::TakeValue { n } => self.processing() && self.absorbed(n) && n
                < self.queue.len(),
            Event::Finish { front_state } => self.processing(),
            Event::FinishPanicking { front_state } => self.active(),
            Event::ClearPoison => true,
        }
    }

    /// The state after `event`.
    pub open spec fn after(self, event: Event<FS, V>) -> Self {
        match event {
            Event::UseMutex { mutex } => self.bind(mutex),
            Event::Process { mutex, condvar, value } => self.process::<()>(
                mutex,
                condvar,
                value,
            ).0,
            Event::Resume { mutex_poisoned, condvar } => self.resume::<()>(
                mutex_poisoned,
                condvar,
            ).0,
            Event::TakeValue { n } => self.take_value(n),
            Event::Finish { front_state } => self.finish(front_state),
            Event::FinishPanicking { front_state } => self.finish_panicking(front_state),
            Event::ClearPoison => self.clear_poison(),
        }
    }

    /// What the call whose step `event` is does next; `None` if `event` is not the step of a call
    /// on its way to the front.
    pub open spec fn step<R>(self, event: Event<FS, V>) -> Option<ProcessStep<FS, V, R>> {
        match event {
            Event::Process { mutex, condvar, value } => Some(
                self.process::<R>(mutex, condvar, value).1,
            ),
            Event::Resume { mutex_poisoned, condvar } => Some(
                self.resume::<R>(mutex_poisoned, condvar).1,
            ),
            _ => None,
        }
    }

    /// `event` brings a call to the front.
    pub open spec fn reaches_front(self, event: Event<FS, V>) -> bool {
        match self.step::<()>(event) {
            Some(step) => step is Run || step is Panic || step is Return,
            None => false,
        }
    }

    /// The state in which the call whose step `event` is has come to the front, and has not done
    /// anything there.
    pub open spec fn come_to_front(self, event: Event<FS, V>) -> Self {
        match event {
            Event::Process { mutex, condvar, value } => self.bind(mutex).acquire_front(),
            _ => self.pop_front(),
        }
    }

    /// `event` takes the first task off the queue.
    pub open spec fn departs(self, event: Event<FS, V>) -> bool {
        event matches Event::Resume { mutex_poisoned, condvar } && self.at_front(condvar)
    }
}

/// What can happen to a queue.
pub ghost enum Event<FS, V> {
    /// A mutex is checked.
    UseMutex { mutex: MutexInfo },
    /// A call takes its first step.
    Process { mutex: MutexInfo, condvar: usize, value: V },
    /// A call that waits takes another step.
    Resume { mutex_poisoned: bool, condvar: usize },
    /// The call at the front takes the value of the `n`-th task, the first that still has one.
    TakeValue { n: int },
    /// The call at the front has processed its value, and leaves.
    Finish { front_state: FS },
    /// The call at the front has panicked, and leaves.
    FinishPanicking { front_state: FS },
    /// Poison is cleared.
    ClearPoison,
}

/// `states` are the states that a queue goes through as `events` happen to it, one by one.
pub open spec fn history<FS, V>(
    states: Seq<QueueView<FS, V>>,
    events: Seq<Event<FS, V>>,
) -> bool {
    &&& states.len() == events.len() + 1
    &&& forall|i: int|
        0 <= i < events.len() ==> states[i].allows(#[trigger] events[i]) && states[i + 1]
            == states[i].after(events[i])
}

/// How many tasks have left the queue between state `i` and state `j`.
pub open spec fn departed<FS, V>(
    states: Seq<QueueView<FS, V>>,
    events: Seq<Event<FS, V>>,
    i: int,
    j: int,
) -> nat
    decreases j - i,
{
    if j <= i {
        0
    } else {
        departed(states, events, i, j - 1) + if states[j - 1].departs(events[j - 1]) {
            1nat
        } else {
            0nat
        }
    }
}

} // verus!
