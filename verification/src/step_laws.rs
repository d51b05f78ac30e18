//! What each step comes to: which answer a call gets, and what is different in the queue
//! afterwards. All of it is said of what goes into a step and what comes out.

use vstd::prelude::*;

use crate::abort::AbortReason;
use crate::interface::{MutexInfo, MutexMisuse, PanicOptions, ProcessResult, ProcessStep};
use crate::laws::{
    law_options_and_mutex_are_fixed, law_poison_lasts_until_cleared,
    law_waiting_call_comes_to_the_front,
};
use crate::model::{arrival, departed, history, Event, QueueView};
use crate::poisoning::PoisonPanic;
use crate::queue::{Arrival, TaskWaitResult};

verus! {

/// A new queue has the options that it was made with, each of them, and the front state that it
/// was given. It is not poisoned, nobody is at its front or waits, and it knows no mutex.
pub proof fn law_new_queue_is_as_asked_for<FS, V>(front_state: FS, options: PanicOptions)
    ensures
        ({
            let queue = QueueView::<FS, V>::init(front_state, options);
            &&& queue.options.unwrap_mutex_poison == options.unwrap_mutex_poison
            &&& queue.options.unwrap_queue_poison == options.unwrap_queue_poison
            &&& queue.front_state == Some(front_state)
            &&& !queue.front_locked
            &&& !queue.queue_poisoned
            &&& queue.queue.len() == 0
            &&& queue.mutex_address == 0
            &&& queue.batch is Completed
        }),
{
}

/// The first call on a new queue processes its value at once, with the front state that the queue
/// was made with. It panics exactly if its mutex is poisoned and the queue was made with the option
/// to unwrap mutex poison; the option on queue poison does not matter to it.
pub proof fn law_first_call_obeys_the_options<FS, V, R>(
    front_state: FS,
    options: PanicOptions,
    mutex: MutexInfo,
    condvar: usize,
    value: V,
)
    requires
        mutex.size > 0,
    ensures
        ({
            let queue = QueueView::<FS, V>::init(front_state, options);
            let step = queue.process::<R>(mutex, condvar, value).1;
            &&& options.unwrap_mutex_poison && mutex.poisoned ==> step == (ProcessStep::<
                FS,
                V,
                R,
            >::Panic { reason: PoisonPanic::MutexPoisoned, front_state })
            &&& !options.unwrap_mutex_poison || !mutex.poisoned ==> step == (ProcessStep::<
                FS,
                V,
                R,
            >::Run { value, front_state })
        }),
{
}

/// A mutex is rejected exactly if the queue has been used with one at another address, or if the
/// mutex takes up no memory.
pub proof fn law_mutex_is_rejected_exactly_if_wrong<FS, V>(
    queue: QueueView<FS, V>,
    mutex: MutexInfo,
)
    ensures
        queue.misuse(mutex) == Some(MutexMisuse::DifferentMutex) <==> queue.mutex_address != 0
            && queue.mutex_address != mutex.address,
        queue.misuse(mutex) == Some(MutexMisuse::ZeroSized) <==> mutex.size == 0 && (
        queue.mutex_address == 0 || queue.mutex_address == mutex.address),
        queue.misuse(mutex) is None <==> mutex.size > 0 && (queue.mutex_address == 0
            || queue.mutex_address == mutex.address),
{
}

/// A queue that knows no mutex remembers the address of the one that it is used with, exactly that
/// one; a queue that knows one goes on to know it. Nothing else changes.
pub proof fn law_first_mutex_is_remembered<FS, V>(queue: QueueView<FS, V>, mutex: MutexInfo)
    ensures
        queue.mutex_address == 0 ==> queue.bind(mutex).mutex_address == mutex.address,
        queue.mutex_address != 0 ==> queue.bind(mutex).mutex_address == queue.mutex_address,
        queue.bind(mutex).options == queue.options,
        queue.bind(mutex).front_state == queue.front_state,
        queue.bind(mutex).front_locked == queue.front_locked,
        queue.bind(mutex).queue_poisoned == queue.queue_poisoned,
        queue.bind(mutex).queue == queue.queue,
        queue.bind(mutex).batch == queue.batch,
{
}

/// The first mutex decides. If event `i` is the first to use a mutex with the queue, then whatever
/// happens after it, a later call is rejected on account of the address exactly if its mutex is at
/// another address, and a call with the same mutex is not rejected (unless the mutex takes up no
/// memory).
pub proof fn law_later_calls_need_the_first_mutex<FS, V, R>(
    states: Seq<QueueView<FS, V>>,
    events: Seq<Event<FS, V>>,
    i: int,
    j: int,
    first: MutexInfo,
    later: MutexInfo,
    condvar: usize,
    value: V,
)
    requires
        history(states, events),
        0 <= i < j < states.len(),
        states[i].mutex_address == 0,
        first.address != 0,
        events[i] == (Event::<FS, V>::UseMutex { mutex: first }) || exists|c: usize, v: V|
            events[i] == (Event::<FS, V>::Process { mutex: first, condvar: c, value: v }),
    ensures
        states[j].mutex_address == first.address,
        states[j].process::<R>(later, condvar, value).1 == (ProcessStep::<FS, V, R>::Misused(
            MutexMisuse::DifferentMutex,
        )) <==> later.address != first.address,
        states[j].process::<R>(later, condvar, value).1 is Misused <==> later.address
            != first.address || later.size == 0,
        states[j].misuse(later) is None <==> later.address == first.address && later.size > 0,
{
    assert(states[i].allows(events[i]));
    assert(states[i + 1] == states[i].after(events[i]));
    law_options_and_mutex_are_fixed(states, events, i + 1, j);
}

/// A call whose mutex is wrong is told so, and does nothing more than to have the queue remember
/// its first mutex: the call's value does not join the queue.
pub proof fn law_rejected_call_leaves_the_queue_alone<FS, V, R>(
    queue: QueueView<FS, V>,
    mutex: MutexInfo,
    condvar: usize,
    value: V,
)
    requires
        mutex.size == 0 || (queue.mutex_address != 0 && queue.mutex_address != mutex.address),
    ensures
        ({
            let (after, step) = queue.process::<R>(mutex, condvar, value);
            &&& step is Misused
            &&& step->Misused_0 is DifferentMutex <==> queue.mutex_address != 0
                && queue.mutex_address != mutex.address
            &&& queue.mutex_address == 0 ==> after.mutex_address == mutex.address
            &&& queue.mutex_address != 0 ==> after.mutex_address == queue.mutex_address
            &&& after.options == queue.options
            &&& after.front_state == queue.front_state
            &&& after.front_locked == queue.front_locked
            &&& after.queue_poisoned == queue.queue_poisoned
            &&& after.queue == queue.queue
            &&& after.batch == queue.batch
        }),
{
}

/// A call that finds the front free goes there at once, and is given the front state. It panics
/// exactly if the queue is poisoned and that is to be unwrapped, or the mutex is poisoned and that
/// is to be unwrapped, whatever the other option is; queue poison comes first. Otherwise it
/// processes its own value. The tasks that wait do not matter, and stay as they are.
pub proof fn law_call_takes_a_free_front<FS, V, R>(
    queue: QueueView<FS, V>,
    mutex: MutexInfo,
    condvar: usize,
    value: V,
    front_state: FS,
)
    requires
        mutex.size > 0,
        queue.mutex_address == 0 || queue.mutex_address == mutex.address,
        !queue.front_locked,
        queue.front_state == Some(front_state),
    ensures
        ({
            let (after, step) = queue.process::<R>(mutex, condvar, value);
            let queue_panics = queue.options.unwrap_queue_poison && queue.queue_poisoned;
            let mutex_panics = queue.options.unwrap_mutex_poison && mutex.poisoned;
            &&& !queue_panics && !mutex_panics ==> step == (ProcessStep::<FS, V, R>::Run {
                value,
                front_state,
            })
            &&& queue_panics ==> step == (ProcessStep::<FS, V, R>::Panic {
                reason: PoisonPanic::QueuePoisoned,
                front_state,
            })
            &&& !queue_panics && mutex_panics ==> step == (ProcessStep::<FS, V, R>::Panic {
                reason: PoisonPanic::MutexPoisoned,
                front_state,
            })
            &&& after.front_locked
            &&& after.front_state is None
            &&& after.batch is Running <==> step is Run || queue.batch is Running
            &&& !(step is Run) ==> after.batch == queue.batch
            &&& after.mutex_address == mutex.address
            &&& after.options == queue.options
            &&& after.queue_poisoned == queue.queue_poisoned
            &&& after.queue == queue.queue
        }),
{
}

/// A call that finds the front taken waits, whoever else waits and whatever is poisoned. Its task
/// joins the queue behind all others, with the call's own value and condition variable, and has not
/// been woken. The other tasks, and all else, stay as they are.
pub proof fn law_call_queues_up_behind_all_others<FS, V, R>(
    queue: QueueView<FS, V>,
    mutex: MutexInfo,
    condvar: usize,
    value: V,
)
    requires
        mutex.size > 0,
        queue.mutex_address == 0 || queue.mutex_address == mutex.address,
        queue.front_locked,
    ensures
        ({
            let (after, step) = queue.process::<R>(mutex, condvar, value);
            let last = queue.queue.len() as int;
            &&& step is Wait
            &&& after.queue.len() == last + 1
            &&& forall|i: int| 0 <= i < last ==> #[trigger] after.queue[i] == queue.queue[i]
            &&& after.queue[last].condvar == condvar
            &&& after.queue[last].value == Some(value)
            &&& !after.queue[last].at_front
            &&& !after.queue[last].panicked
            &&& after.mutex_address == mutex.address
            &&& after.options == queue.options
            &&& after.front_state == queue.front_state
            &&& after.front_locked
            &&& after.queue_poisoned == queue.queue_poisoned
            &&& after.batch == queue.batch
        }),
{
}

/// A call that wakes up goes on waiting if its task is not the first, or has not been woken.
/// Nothing changes then.
pub proof fn law_call_waits_for_its_turn<FS, V, R>(
    queue: QueueView<FS, V>,
    mutex_poisoned: bool,
    condvar: usize,
)
    ensures
        queue.resume::<R>(mutex_poisoned, condvar).1 is Wait <==> queue.queue.len() == 0
            || queue.queue[0].condvar != condvar || !queue.queue[0].at_front,
        queue.resume::<R>(mutex_poisoned, condvar).1 is Wait ==> queue.resume::<R>(
            mutex_poisoned,
            condvar,
        ).0 == queue,
{
}

/// What a woken call is told at the front, however many tasks wait behind it.
/// - It panics with the queue's poison exactly if the queue is poisoned and that is to be
///   unwrapped.
/// - Otherwise, if nobody has taken its value, it panics with the mutex's poison exactly if the
///   mutex is poisoned and that is to be unwrapped, whatever the other option is, and else
///   processes the value of its own task.
/// - Otherwise it returns, and says truly whether it was told of a panic.
///
/// A call that processes its value or panics is given the front state.
pub proof fn law_woken_call_is_told_what_became_of_its_value<FS, V, R>(
    queue: QueueView<FS, V>,
    mutex_poisoned: bool,
    condvar: usize,
    front_state: FS,
)
    requires
        queue.queue.len() > 0,
        queue.queue[0].condvar == condvar,
        queue.queue[0].at_front,
        queue.front_state == Some(front_state),
    ensures
        ({
            let step = queue.resume::<R>(mutex_poisoned, condvar).1;
            let first = queue.queue[0];
            let queue_panics = queue.options.unwrap_queue_poison && queue.queue_poisoned;
            let mutex_panics = queue.options.unwrap_mutex_poison && mutex_poisoned;
            &&& queue_panics ==> step == (ProcessStep::<FS, V, R>::Panic {
                reason: PoisonPanic::QueuePoisoned,
                front_state,
            })
            &&& !queue_panics && first.value is Some && mutex_panics ==> step == (ProcessStep::<
                FS,
                V,
                R,
            >::Panic { reason: PoisonPanic::MutexPoisoned, front_state })
            &&& !queue_panics && first.value is Some && !mutex_panics ==> step == (ProcessStep::<
                FS,
                V,
                R,
            >::Run { value: first.value->0, front_state })
            &&& !queue_panics && first.value is None && first.panicked ==> step is Return
                && step->result is ProcessingPanicked
            &&& !queue_panics && first.value is None && !first.panicked ==> step is Return
                && step->result is ProcessedElsewhere
        }),
{
}

/// What is different in the queue when a woken call has come to the front. Its task has left, and
/// the others have moved up with their condition variables and values.
/// - A call that processes its value or panics has the front, and has woken nobody.
/// - A call that returns has woken the next task, if there is one, and has passed the panic that it
///   was told of on to it; the front state is what it was. If there is no next task, the front is
///   free.
///
/// The options, the mutex and the poison stay as they are.
pub proof fn law_woken_call_leaves_the_queue<FS, V, R>(
    queue: QueueView<FS, V>,
    mutex_poisoned: bool,
    condvar: usize,
)
    requires
        queue.queue.len() > 0,
        queue.queue[0].condvar == condvar,
        queue.queue[0].at_front,
        queue.front_locked,
        queue.front_state is Some,
    ensures
        ({
            let (after, step) = queue.resume::<R>(mutex_poisoned, condvar);
            &&& after.mutex_address == queue.mutex_address
            &&& after.options == queue.options
            &&& after.queue_poisoned == queue.queue_poisoned
            &&& step is Run ==> after.batch is Running
            &&& !(step is Run) ==> after.batch == queue.batch
            &&& after.queue.len() == queue.queue.len() - 1
            &&& forall|i: int|
                1 <= i < queue.queue.len() ==> after.queue[i - 1].condvar == (
                #[trigger] queue.queue[i]).condvar && after.queue[i - 1].value
                    == queue.queue[i].value
            &&& forall|i: int|
                2 <= i < queue.queue.len() ==> after.queue[i - 1] == #[trigger] queue.queue[i]
            &&& step is Run || step is Panic ==> {
                &&& after.front_locked
                &&& after.front_state is None
                &&& queue.queue.len() > 1 ==> after.queue[0] == queue.queue[1]
            }
            &&& step is Return ==> {
                &&& after.front_state == queue.front_state
                &&& after.front_locked <==> queue.queue.len() > 1
                &&& queue.queue.len() > 1 ==> {
                    &&& step->wake == Some(queue.queue[1].condvar)
                    &&& after.queue[0].at_front
                    &&& after.queue[0].panicked <==> queue.queue[0].panicked
                        || queue.queue[1].panicked
                }
                &&& queue.queue.len() == 1 ==> step->wake is None
            }
        }),
{
    let popped = queue.queue.drop_first();
    assert forall|i: int| 1 <= i < queue.queue.len() implies #[trigger] queue.queue[i] == popped[i
        - 1] by {}
    if queue.queue.len() > 1 {
        assert(queue.queue[1] == popped[0]);
    }
}

/// Poison that is not to be unwrapped does not matter: the answer is the same with and without it.
/// Neither does mutex poison matter to a call whose value has been taken.
pub proof fn law_ignored_poison_does_not_matter<FS, V, R>(
    queue: QueueView<FS, V>,
    mutex: MutexInfo,
    mutex_poisoned: bool,
    queue_poisoned: bool,
    condvar: usize,
    value: V,
)
    ensures
        !queue.options.unwrap_mutex_poison || (queue.queue.len() > 0 && queue.queue[0].value is None)
            ==> queue.resume::<R>(mutex_poisoned, condvar) == queue.resume::<R>(
            !mutex_poisoned,
            condvar,
        ),
        !queue.options.unwrap_mutex_poison ==> queue.process::<R>(mutex, condvar, value)
            == queue.process::<R>(
            MutexInfo { poisoned: !mutex.poisoned, ..mutex },
            condvar,
            value,
        ),
        !queue.options.unwrap_queue_poison ==> {
            let other = QueueView { queue_poisoned, ..queue };
            &&& queue.resume::<R>(mutex_poisoned, condvar).1 == other.resume::<R>(
                mutex_poisoned,
                condvar,
            ).1
            &&& queue.process::<R>(mutex, condvar, value).1 == other.process::<R>(
                mutex,
                condvar,
                value,
            ).1
        },
{
}

/// The answers of a woken call depend on its own task and on what is poisoned, and on nothing else:
/// not on how many tasks wait behind it, what they hold, or which mutex the queue knows. Only whom
/// the call wakes does.
pub proof fn law_tasks_behind_do_not_matter<FS, V, R>(
    queue: QueueView<FS, V>,
    other: QueueView<FS, V>,
    mutex_poisoned: bool,
    condvar: usize,
)
    requires
        queue.queue.len() > 0,
        other.queue.len() > 0,
        queue.queue[0] == other.queue[0],
        queue.options == other.options,
        queue.queue_poisoned == other.queue_poisoned,
        queue.front_state == other.front_state,
    ensures
        ({
            let step = queue.resume::<R>(mutex_poisoned, condvar).1;
            let other_step = other.resume::<R>(mutex_poisoned, condvar).1;
            &&& !(step is Return) ==> step == other_step
            &&& step is Return ==> other_step is Return && step->result == other_step->result
        }),
{
}

/// A call that has waited processes exactly the value that it came with. If a call has pushed its
/// task with event `i`, and event `j` is the step with which it goes to the front, nobody having
/// taken its value, then it processes that value with the front state as it is, provided that the
/// queue is not poisoned, or its poison is ignored, and the mutex is not poisoned, or its poison is
/// ignored. However many calls wait does not matter.
pub proof fn law_waiting_call_processes_its_own_value<FS, V, R>(
    states: Seq<QueueView<FS, V>>,
    events: Seq<Event<FS, V>>,
    i: int,
    j: int,
    mutex: MutexInfo,
    mutex_poisoned: bool,
    condvar: usize,
    value: V,
)
    requires
        history(states, events),
        states[0].wf(),
        0 <= i < j < events.len(),
        events[i] == (Event::<FS, V>::Process { mutex, condvar, value }),
        states[i].step::<()>(events[i]) == Some(ProcessStep::<FS, V, ()>::Wait),
        departed(states, events, i + 1, j) <= states[i].queue.len(),
        events[j] == (Event::<FS, V>::Resume { mutex_poisoned, condvar }),
        states[j].queue.len() > 0,
        states[j].queue[0].condvar == condvar,
        states[j].queue[0].at_front,
        states[j].queue[0].value is Some,
        !states[j].options.unwrap_queue_poison || !states[j].queue_poisoned,
        !states[j].options.unwrap_mutex_poison || !mutex_poisoned,
    ensures
        states[j].front_state is Some,
        states[j].resume::<R>(mutex_poisoned, condvar).1 == (ProcessStep::<FS, V, R>::Run {
            value,
            front_state: states[j].front_state->0,
        }),
{
    law_waiting_call_comes_to_the_front(
        states,
        events,
        i,
        j,
        mutex,
        mutex_poisoned,
        condvar,
        value,
    );
}

/// A call that has processed its value leaves the front: to the next task, which is woken and is
/// not told of any panic that it did not know of, or to nobody. It leaves the front state as it
/// says, and does not poison the queue. All tasks stay, with their values.
pub proof fn law_finishing_call_hands_over<FS, V>(queue: QueueView<FS, V>, front_state: FS)
    ensures
        ({
            let after = queue.finish(front_state);
            &&& after.front_state == Some(front_state)
            &&& after.front_locked <==> queue.front_locked && queue.queue.len() > 0
            &&& after.queue_poisoned == queue.queue_poisoned
            &&& after.batch is Completed
            &&& after.mutex_address == queue.mutex_address
            &&& after.options == queue.options
            &&& after.queue.len() == queue.queue.len()
            &&& queue.queue.len() > 0 ==> {
                &&& queue.next_waiter() == Some(queue.queue[0].condvar)
                &&& after.queue[0].condvar == queue.queue[0].condvar
                &&& after.queue[0].value == queue.queue[0].value
                &&& after.queue[0].at_front
                &&& after.queue[0].panicked == queue.queue[0].panicked
            }
            &&& queue.queue.len() == 0 ==> queue.next_waiter() is None
            &&& forall|i: int|
                1 <= i < queue.queue.len() ==> #[trigger] after.queue[i] == queue.queue[i]
        }),
{
}

/// A call that has panicked leaves the front as well: to the next task, which is woken and is told
/// of the panic, or to nobody. It leaves the front state as it says, and the queue is poisoned,
/// whatever the options are. All tasks stay, with their values.
pub proof fn law_panicking_call_hands_over<FS, V>(queue: QueueView<FS, V>, front_state: FS)
    ensures
        ({
            let after = queue.finish_panicking(front_state);
            &&& after.front_state == Some(front_state)
            &&& after.front_locked <==> queue.front_locked && queue.queue.len() > 0
            &&& after.queue_poisoned
            &&& queue.batch is Running ==> after.batch is Panicked
            &&& !(queue.batch is Running) ==> after.batch == queue.batch
            &&& after.mutex_address == queue.mutex_address
            &&& after.options == queue.options
            &&& after.queue.len() == queue.queue.len()
            &&& queue.queue.len() > 0 ==> {
                &&& queue.next_waiter() == Some(queue.queue[0].condvar)
                &&& after.queue[0].condvar == queue.queue[0].condvar
                &&& after.queue[0].value == queue.queue[0].value
                &&& after.queue[0].at_front
                &&& after.queue[0].panicked
            }
            &&& queue.queue.len() == 0 ==> queue.next_waiter() is None
            &&& forall|i: int|
                1 <= i < queue.queue.len() ==> #[trigger] after.queue[i] == queue.queue[i]
        }),
{
}

/// A call that takes the value of another takes that value alone: the other task stays where it is
/// and has none afterwards, and all else is as it was. What it finds there, and takes, is the value
/// which that task holds.
pub proof fn law_taking_a_value_takes_that_alone<FS, V>(queue: QueueView<FS, V>, n: int)
    requires
        0 <= n,
    ensures
        n >= queue.queue.len() ==> queue.next_value(n) is None,
        n < queue.queue.len() ==> queue.next_value(n) == queue.queue[n].value,
        n < queue.queue.len() ==> {
            let after = queue.take_value(n);
            &&& after.queue.len() == queue.queue.len()
            &&& after.queue[n].value is None
            &&& after.queue[n].condvar == queue.queue[n].condvar
            &&& after.queue[n].at_front == queue.queue[n].at_front
            &&& after.queue[n].panicked == queue.queue[n].panicked
            &&& forall|i: int|
                0 <= i < queue.queue.len() && i != n ==> #[trigger] after.queue[i]
                    == queue.queue[i]
            &&& after.mutex_address == queue.mutex_address
            &&& after.options == queue.options
            &&& after.front_state == queue.front_state
            &&& after.front_locked == queue.front_locked
            &&& after.queue_poisoned == queue.queue_poisoned
            &&& after.batch == queue.batch
        },
{
}

/// Clearing poison leaves a queue that is not poisoned, in every state and with all options, and
/// changes nothing else.
pub proof fn law_cleared_queue_is_not_poisoned<FS, V>(queue: QueueView<FS, V>)
    ensures
        !queue.clear_poison().queue_poisoned,
        queue.clear_poison().mutex_address == queue.mutex_address,
        queue.clear_poison().options == queue.options,
        queue.clear_poison().front_state == queue.front_state,
        queue.clear_poison().front_locked == queue.front_locked,
        queue.clear_poison().queue == queue.queue,
        queue.clear_poison().batch == queue.batch,
{
}

/// What was last done about poison decides. After event `i` has cleared it, and as long as no call
/// panics after that, the queue is not poisoned, and no call panics on account of the queue. After
/// event `i` has been a panic, and as long as poison is not cleared after that, the queue is
/// poisoned.
pub proof fn law_last_panic_or_clearing_decides<FS, V, R>(
    states: Seq<QueueView<FS, V>>,
    events: Seq<Event<FS, V>>,
    i: int,
    j: int,
    mutex: MutexInfo,
    mutex_poisoned: bool,
    condvar: usize,
    value: V,
)
    requires
        history(states, events),
        0 <= i < j < states.len(),
    ensures
        events[i] is ClearPoison && (forall|k: int|
            i < k < j ==> !((#[trigger] events[k]) is FinishPanicking)) ==> {
            let first_step = states[j].process::<R>(mutex, condvar, value).1;
            let later_step = states[j].resume::<R>(mutex_poisoned, condvar).1;
            &&& !states[j].queue_poisoned
            &&& first_step is Panic ==> first_step->reason is MutexPoisoned
            &&& later_step is Panic ==> later_step->reason is MutexPoisoned
        },
        events[i] is FinishPanicking && (forall|k: int|
            i < k < j ==> !((#[trigger] events[k]) is ClearPoison)) ==> states[j].queue_poisoned,
{
    assert(states[i].allows(events[i]));
    assert(states[i + 1] == states[i].after(events[i]));
    law_poison_lasts_until_cleared(states, events, i + 1, j);
}

/// What a call at the front is to do, from what is poisoned and what it knows of its value: as
/// [`law_woken_call_is_told_what_became_of_its_value`], for the decision alone. No call at the front
/// panics on account of having locked a poisoned mutex.
pub proof fn law_decision_at_the_front<V>(
    options: PanicOptions,
    queue_poisoned: bool,
    mutex_poisoned: bool,
    value: Option<V>,
    panicked: bool,
)
    ensures
        ({
            let what = arrival(options, queue_poisoned, mutex_poisoned, value, panicked);
            let queue_panics = options.unwrap_queue_poison && queue_poisoned;
            let mutex_panics = options.unwrap_mutex_poison && mutex_poisoned;
            &&& what == Arrival::<V>::Panic(PoisonPanic::QueuePoisoned) <==> queue_panics
            &&& what == Arrival::<V>::Panic(PoisonPanic::MutexPoisoned) <==> !queue_panics
                && mutex_panics && value is Some
            &&& what is Run <==> !queue_panics && !mutex_panics && value is Some
            &&& what is Run ==> value == Some(what->Run_0)
            &&& what is ProcessedElsewhere <==> !queue_panics && value is None && !panicked
            &&& what is ProcessingPanicked <==> !queue_panics && value is None && panicked
        }),
{
}

/// What a waiting call brings to the front is its value or nothing.
pub proof fn law_wait_result_has_the_value<V>(value: V)
    ensures
        TaskWaitResult::Process(value).value() == Some(value),
        TaskWaitResult::<V>::ProcessedElsewhere.value() is None,
        TaskWaitResult::<V>::ProcessingPanicked.value() is None,
{
}

/// To go to the front is to lock it and to take the front state, and nothing else; a task that does
/// so from the queue leaves it, and the others move up unchanged.
pub proof fn law_going_to_the_front_takes_the_front_state<FS, V>(queue: QueueView<FS, V>)
    ensures
        ({
            let at_front = queue.acquire_front();
            &&& at_front.front_locked
            &&& at_front.front_state is None
            &&& at_front.mutex_address == queue.mutex_address
            &&& at_front.options == queue.options
            &&& at_front.queue_poisoned == queue.queue_poisoned
            &&& at_front.queue == queue.queue
            &&& at_front.batch == queue.batch
        }),
        queue.queue.len() > 0 ==> {
            let at_front = queue.pop_front();
            &&& at_front.front_locked == queue.front_locked
            &&& at_front.front_state is None
            &&& at_front.mutex_address == queue.mutex_address
            &&& at_front.options == queue.options
            &&& at_front.queue_poisoned == queue.queue_poisoned
            &&& at_front.batch == queue.batch
            &&& at_front.queue.len() == queue.queue.len() - 1
            &&& forall|i: int|
                0 <= i < at_front.queue.len() ==> #[trigger] at_front.queue[i] == queue.queue[i
                    + 1]
        },
{
}

/// A task that joins the queue is the last, has its call's condition variable and value, and has
/// not been woken. The others, and all else, stay as they are.
pub proof fn law_new_task_is_the_last<FS, V>(queue: QueueView<FS, V>, condvar: usize, value: V)
    ensures
        ({
            let after = queue.push(condvar, value);
            let last = queue.queue.len() as int;
            &&& after.queue.len() == last + 1
            &&& forall|i: int| 0 <= i < last ==> #[trigger] after.queue[i] == queue.queue[i]
            &&& after.queue[last].condvar == condvar
            &&& after.queue[last].value == Some(value)
            &&& !after.queue[last].at_front
            &&& !after.queue[last].panicked
            &&& after.mutex_address == queue.mutex_address
            &&& after.options == queue.options
            &&& after.front_state == queue.front_state
            &&& after.front_locked == queue.front_locked
            &&& after.queue_poisoned == queue.queue_poisoned
            &&& after.batch == queue.batch
        }),
{
}

/// To decide what to do at the front changes nothing, but that a call which is to process its value
/// is then the last to do so.
pub proof fn law_deciding_changes_nothing<FS, V>(queue: QueueView<FS, V>, what: Arrival<V>)
    ensures
        ({
            let after = queue.begin(what);
            &&& what is Run ==> after.batch is Running
            &&& !(what is Run) ==> after.batch == queue.batch
            &&& after.mutex_address == queue.mutex_address
            &&& after.options == queue.options
            &&& after.front_state == queue.front_state
            &&& after.front_locked == queue.front_locked
            &&& after.queue_poisoned == queue.queue_poisoned
            &&& after.queue == queue.queue
        }),
{
}

/// A call at the front does what it has decided to. To process its value, or to panic, it keeps the
/// front and its state, and the queue stays as it is. To return, it says what it knows, and leaves
/// the front with the state as it was: to the next task, which is woken, and is told of a panic if
/// the call was, or to nobody.
pub proof fn law_call_does_what_it_decided<FS, V, R>(
    queue: QueueView<FS, V>,
    front_state: FS,
    what: Arrival<V>,
)
    ensures
        ({
            let (after, step) = queue.go_on::<R>(front_state, what);
            &&& what is Run ==> step == (ProcessStep::<FS, V, R>::Run {
                value: what->Run_0,
                front_state,
            })
            &&& what is Panic ==> step == (ProcessStep::<FS, V, R>::Panic {
                reason: what->Panic_0,
                front_state,
            })
            &&& what is Run || what is Panic ==> after == queue
            &&& what is ProcessedElsewhere ==> step is Return && step->result
                == ProcessResult::<R>::ProcessedElsewhere
            &&& what is ProcessingPanicked ==> step is Return && step->result
                == ProcessResult::<R>::ProcessingPanicked
            &&& step is Return ==> {
                &&& after.front_state == Some(front_state)
                &&& after.front_locked <==> queue.front_locked && queue.queue.len() > 0
                &&& after.mutex_address == queue.mutex_address
                &&& after.options == queue.options
                &&& after.queue_poisoned == queue.queue_poisoned
                &&& after.batch == queue.batch
                &&& after.queue.len() == queue.queue.len()
                &&& queue.queue.len() == 0 ==> step->wake is None
                &&& queue.queue.len() > 0 ==> {
                    &&& step->wake == Some(queue.queue[0].condvar)
                    &&& after.queue[0].condvar == queue.queue[0].condvar
                    &&& after.queue[0].value == queue.queue[0].value
                    &&& after.queue[0].at_front
                    &&& after.queue[0].panicked <==> what is ProcessingPanicked
                        || queue.queue[0].panicked
                }
                &&& forall|i: int|
                    1 <= i < queue.queue.len() ==> #[trigger] after.queue[i] == queue.queue[i]
            }
        }),
{
}

/// A call's first step is to have its mutex checked and then, if that is in order, to go to the
/// front or to queue up.
pub proof fn law_first_step_after_the_check<FS, V, R>(
    queue: QueueView<FS, V>,
    mutex: MutexInfo,
    condvar: usize,
    value: V,
)
    requires
        mutex.size > 0,
        queue.mutex_address == mutex.address,
    ensures
        queue.enter::<R>(mutex.poisoned, condvar, value) == queue.process::<R>(
            mutex,
            condvar,
            value,
        ),
{
}

/// What is said of each kind of poison that a call panics on, of each misuse of a mutex, and of each
/// reason to abort.
pub proof fn law_messages_tell_the_reasons(
    reason: PoisonPanic,
    misuse: MutexMisuse,
    abort: AbortReason,
)
    ensures
        reason is LockPoisoned ==> reason.text() == "poisoned std::sync::Mutex"@,
        reason is QueuePoisoned ==> reason.text() == "a ContentionQueue was poisoned"@,
        reason is MutexPoisoned ==> reason.text()
            == "the Mutex used for a ContentionQueue was poisoned"@,
        misuse is DifferentMutex ==> misuse.text()
            == "All calls to `ContentionQueue::process` on the same queue must use the same `Mutex`"@,
        misuse is ZeroSized ==> misuse.text() == "`std::sync::Mutex` should not be a ZST"@,
        abort is NotAtFront ==> abort.text()
            == "a ContentionQueue::process task unexpectedly panicked before it could reach the front of the queue"@,
        abort is RelockFailed ==> abort.text()
            == "QueueHandle::unlocked could not relock its mutex due to to a panic, whose payload is: "@,
{
}

} // verus!
