//! What holds of every queue, whatever the calls on it do.

use vstd::prelude::*;

use crate::interface::{MutexInfo, MutexMisuse, PanicOptions, ProcessStep};
use crate::lemmas::{
    lemma_bind, lemma_clear_poison, lemma_contended_process, lemma_finish, lemma_finish_panicking,
    lemma_pop_front, lemma_process, lemma_resume, lemma_take_value,
};
use crate::model::{departed, history, Batch, Event, QueueView, TaskView};
use crate::poisoning::PoisonPanic;

verus! {

/// Whatever happens to a well-formed queue, it stays well formed.
pub proof fn law_events_keep_queue_well_formed<FS, V>(queue: QueueView<FS, V>, event: Event<FS, V>)
    requires
        queue.wf(),
        queue.allows(event),
    ensures
        queue.after(event).wf(),
{
    match event {
        Event::UseMutex { mutex } => lemma_bind(queue, mutex),
        Event::Process { mutex, condvar, value } => lemma_process::<FS, V, ()>(
            queue,
            mutex,
            condvar,
            value,
        ),
        Event::Resume { mutex_poisoned, condvar } => lemma_resume::<FS, V, ()>(
            queue,
            mutex_poisoned,
            condvar,
        ),
        Event::TakeValue { n } => lemma_take_value(queue, n),
        Event::Finish { front_state } => lemma_finish(queue, front_state),
        Event::FinishPanicking { front_state } => lemma_finish_panicking(queue, front_state),
        Event::ClearPoison => lemma_clear_poison(queue),
    }
}

/// What a step does to the queue does not depend on what type of result the call returns: the
/// events are the steps of the calls.
pub proof fn law_events_are_steps<FS, V, R>(
    queue: QueueView<FS, V>,
    mutex: MutexInfo,
    mutex_poisoned: bool,
    condvar: usize,
    value: V,
)
    ensures
        queue.process::<R>(mutex, condvar, value).0 == queue.after(
            Event::Process { mutex, condvar, value },
        ),
        queue.resume::<R>(mutex_poisoned, condvar).0 == queue.after(
            Event::Resume { mutex_poisoned, condvar },
        ),
{
}

/// A new queue is well formed, and so is every state that it ever gets into.
pub proof fn law_queue_is_always_well_formed<FS, V>(
    front_state: FS,
    options: PanicOptions,
    states: Seq<QueueView<FS, V>>,
    events: Seq<Event<FS, V>>,
    i: int,
)
    requires
        history(states, events),
        states[0] == QueueView::<FS, V>::init(front_state, options),
        0 <= i < states.len(),
    ensures
        states[i].wf(),
{
    assert(states[0].absorbed(0));
    lemma_history_wf(states, events, i);
}

/// Every state after a well-formed one is well formed.
proof fn lemma_history_wf<FS, V>(
    states: Seq<QueueView<FS, V>>,
    events: Seq<Event<FS, V>>,
    i: int,
)
    requires
        history(states, events),
        states[0].wf(),
        0 <= i < states.len(),
    ensures
        states[i].wf(),
    decreases i,
{
    if i > 0 {
        lemma_history_wf(states, events, i - 1);
        law_events_keep_queue_well_formed(states[i - 1], events[i - 1]);
    }
}

/// Mutual exclusion: from the moment that a call is at the front until it leaves, no other call
/// comes to the front, and the front state is not there for any other call to have.
pub proof fn law_mutual_exclusion<FS, V>(
    states: Seq<QueueView<FS, V>>,
    events: Seq<Event<FS, V>>,
    i: int,
    j: int,
)
    requires
        history(states, events),
        states[0].wf(),
        0 <= i <= j < states.len(),
        states[i].active(),
        forall|k: int|
            i <= k < j ==> !((#[trigger] events[k]) is Finish) && !(events[k] is FinishPanicking),
    ensures
        states[j].active(),
        states[j].front_state is None,
        forall|k: int| i <= k < j ==> !states[k].reaches_front(#[trigger] events[k]),
    decreases j,
{
    if i < j {
        law_mutual_exclusion(states, events, i, j - 1);
        lemma_history_wf(states, events, j - 1);
        lemma_others_wait(states[j - 1], events[j - 1]);
    }
}

/// While a call is at the front, the steps of other calls leave it there.
proof fn lemma_others_wait<FS, V>(queue: QueueView<FS, V>, event: Event<FS, V>)
    requires
        queue.wf(),
        queue.active(),
        queue.allows(event),
        !(event is Finish),
        !(event is FinishPanicking),
    ensures
        queue.after(event).active(),
        !queue.reaches_front(event),
        !queue.departs(event),
        queue.after(event).batch == queue.batch,
{
    match event {
        Event::UseMutex { mutex } => lemma_bind(queue, mutex),
        Event::Process { mutex, condvar, value } => lemma_contended_process(
            queue,
            mutex,
            condvar,
            value,
        ),
        Event::Resume { mutex_poisoned, condvar } => {
            if queue.at_front(condvar) {
                assert(queue.queue[0].asleep());
            }
        },
        Event::TakeValue { n } => lemma_take_value(queue, n),
        Event::ClearPoison => lemma_clear_poison(queue),
        _ => {},
    }
}

/// A call goes to the front without waiting if and only if nobody is at the front or about to be,
/// provided that its mutex is in order; otherwise its task becomes the last of the queue.
pub proof fn law_uncontended_calls_do_not_wait<FS, V, R>(
    queue: QueueView<FS, V>,
    mutex: MutexInfo,
    condvar: usize,
    value: V,
)
    requires
        queue.wf(),
        queue.misuse(mutex) is None,
    ensures
        queue.process::<R>(mutex, condvar, value).1 is Wait <==> queue.front_locked,
        queue.front_locked ==> {
            let after = queue.process::<R>(mutex, condvar, value).0;
            &&& after.queue.len() == queue.queue.len() + 1
            &&& after.queue.last().condvar == condvar
            &&& after.queue.last().value == Some(value)
            &&& after.queue.drop_last() == queue.queue
        },
        !queue.front_locked ==> queue.queue.len() == 0,
        !queue.front_locked && !(queue.options.unwrap_queue_poison && queue.queue_poisoned) && !(
        queue.options.unwrap_mutex_poison && mutex.poisoned) ==> queue.process::<R>(
            mutex,
            condvar,
            value,
        ).1 == (ProcessStep::<FS, V, R>::Run { value, front_state: queue.front_state->0 }),
{
    let after = queue.process::<R>(mutex, condvar, value).0;
    if queue.front_locked {
        assert(after.queue.drop_last() =~= queue.queue);
    }
}

/// A call's task is in the queue exactly while the call is told to wait: when the call is told
/// anything else, in particular to return or to panic, the queue no longer has the task.
pub proof fn law_queue_keeps_only_waiting_tasks<FS, V, R>(
    queue: QueueView<FS, V>,
    event: Event<FS, V>,
    condvar: usize,
)
    requires
        queue.wf(),
        queue.allows(event),
        event matches Event::Process { mutex, condvar: c, value } ==> c == condvar,
        event matches Event::Resume { mutex_poisoned, condvar: c } ==> c == condvar,
        queue.step::<R>(event) is Some,
    ensures
        queue.step::<R>(event)->0 is Wait <==> queue.after(event).waits(condvar),
{
    let after = queue.after(event);
    match event {
        Event::Process { mutex, condvar: c, value } => {
            if queue.step::<R>(event)->0 is Wait {
                assert(after.queue[queue.queue.len() as int].condvar == condvar);
            } else {
                assert(after.queue == queue.queue);
            }
        },
        Event::Resume { mutex_poisoned, condvar: c } => {
            if queue.at_front(condvar) {
                lemma_resume::<FS, V, R>(queue, mutex_poisoned, condvar);
                let popped = queue.pop_front();
                assert forall|i: int| 0 <= i < after.queue.len() implies (
                #[trigger] after.queue[i]).condvar != condvar by {
                    assert(after.queue[i].condvar == popped.queue[i].condvar);
                    assert(popped.queue[i] == queue.queue[i + 1]);
                    assert(queue.queue[0].condvar != queue.queue[i + 1].condvar);
                }
            }
        },
        _ => {},
    }
}

/// A call that comes to the front has it to itself: the front is locked, the front state is no
/// longer in the queue but with the call, and no task has been woken. If the call processes its
/// value, or panics, that is the state in which the step leaves the queue. If the call only
/// returns, it leaves the front from that state, within the same step.
pub proof fn law_coming_to_the_front_acquires_it<FS, V, R>(
    queue: QueueView<FS, V>,
    event: Event<FS, V>,
)
    requires
        queue.wf(),
        queue.allows(event),
        queue.reaches_front(event),
    ensures
        queue.front_state is Some,
        queue.come_to_front(event).front_locked,
        queue.come_to_front(event).front_state is None,
        forall|i: int|
            0 <= i < queue.come_to_front(event).queue.len() ==> (
            #[trigger] queue.come_to_front(event).queue[i]).asleep(),
        queue.step::<R>(event) is Some,
        match queue.step::<R>(event)->0 {
            ProcessStep::Run { value, front_state } => {
                &&& queue.front_state == Some(front_state)
                &&& queue.after(event) == (QueueView {
                    batch: Batch::Running,
                    ..queue.come_to_front(event)
                })
            },
            ProcessStep::Panic { reason, front_state } => {
                &&& queue.front_state == Some(front_state)
                &&& queue.after(event) == queue.come_to_front(event)
            },
            ProcessStep::Return { result, wake } => {
                &&& !(result is Processed)
                &&& queue.after(event) == queue.come_to_front(event).leave_front(
                    queue.front_state->0,
                    result is ProcessingPanicked,
                )
            },
            _ => false,
        },
{
    match event {
        Event::Resume { mutex_poisoned, condvar } => {
            lemma_resume::<FS, V, R>(queue, mutex_poisoned, condvar);
            lemma_pop_front(queue);
        },
        _ => {},
    }
}

/// The front state is handed on from call to call: as long as nobody leaves the front who has
/// processed a value or panicked, the front state is what it was, or a call is at the front and
/// has it; and a call that comes to the front is given it as it was.
pub proof fn law_front_state_is_handed_on<FS, V, R>(
    states: Seq<QueueView<FS, V>>,
    events: Seq<Event<FS, V>>,
    i: int,
    j: int,
    front_state: FS,
)
    requires
        history(states, events),
        states[0].wf(),
        0 <= i <= j < states.len(),
        states[i].front_state == Some(front_state),
        forall|k: int|
            i <= k < j ==> !((#[trigger] events[k]) is Finish) && !(events[k] is FinishPanicking),
    ensures
        states[j].front_state == Some(front_state) || states[j].active(),
        j < events.len() && states[j].reaches_front(events[j]) ==> {
            let step = states[j].step::<R>(events[j])->0;
            &&& step is Run ==> step->Run_front_state == front_state
            &&& step is Panic ==> step->Panic_front_state == front_state
            &&& step is Return ==> states[j + 1].front_state == Some(front_state)
        },
    decreases j,
{
    lemma_history_wf(states, events, j);
    if i < j {
        law_front_state_is_handed_on::<FS, V, R>(states, events, i, j - 1, front_state);
        let before = states[j - 1];
        let event = events[j - 1];
        lemma_history_wf(states, events, j - 1);
        assert(states[j] == before.after(event));
        if before.active() {
            lemma_others_wait(before, event);
        } else if before.reaches_front(event) {
            law_coming_to_the_front_acquires_it::<FS, V, ()>(before, event);
            lemma_reaching_front_is_active_or_leaves(before, event);
        }
    }
    if j < events.len() && states[j].reaches_front(events[j]) {
        assert(states[j + 1] == states[j].after(events[j]));
        if states[j].active() {
            lemma_others_wait(states[j], events[j]);
        }
        law_coming_to_the_front_acquires_it::<FS, V, R>(states[j], events[j]);
    }
}

/// A call that comes to the front stays there, unless it returns.
proof fn lemma_reaching_front_is_active_or_leaves<FS, V>(
    queue: QueueView<FS, V>,
    event: Event<FS, V>,
)
    requires
        queue.wf(),
        queue.allows(event),
        queue.reaches_front(event),
    ensures
        queue.after(event).active() || queue.step::<()>(event)->0 is Return,
{
    match event {
        Event::Process { mutex, condvar, value } => lemma_process::<FS, V, ()>(
            queue,
            mutex,
            condvar,
            value,
        ),
        Event::Resume { mutex_poisoned, condvar } => lemma_resume::<FS, V, ()>(
            queue,
            mutex_poisoned,
            condvar,
        ),
        _ => {},
    }
}

/// First in, first out: tasks leave the queue in the order in which they joined it. After `d`
/// departures, the task that was the `k`-th is the `k - d`-th, and its value is what it was unless
/// it has been taken.
pub proof fn law_first_in_first_out<FS, V>(
    states: Seq<QueueView<FS, V>>,
    events: Seq<Event<FS, V>>,
    i: int,
    j: int,
    k: int,
)
    requires
        history(states, events),
        states[0].wf(),
        0 <= i <= j < states.len(),
        departed(states, events, i, j) <= k < states[i].queue.len(),
    ensures
        k - departed(states, events, i, j) < states[j].queue.len(),
        ({
            let before = states[i].queue[k];
            let now = states[j].queue[k - departed(states, events, i, j)];
            &&& now.condvar == before.condvar
            &&& now.value == before.value || now.value is None
        }),
    decreases j,
{
    if i < j {
        law_first_in_first_out(states, events, i, j - 1, k);
        lemma_history_wf(states, events, j - 1);
        let p = k - departed(states, events, i, j - 1);
        lemma_task_moves_up(states[j - 1], events[j - 1], p);
    }
}

/// One event moves a task up by one place, if it takes the first task off the queue, and
/// otherwise leaves the task where it is. Only its value can be taken.
proof fn lemma_task_moves_up<FS, V>(queue: QueueView<FS, V>, event: Event<FS, V>, p: int)
    requires
        queue.wf(),
        queue.allows(event),
        0 <= p < queue.queue.len(),
        queue.departs(event) ==> p > 0,
    ensures
        ({
            let q = if queue.departs(event) {
                p - 1
            } else {
                p
            };
            &&& q < queue.after(event).queue.len()
            &&& queue.after(event).queue[q].condvar == queue.queue[p].condvar
            &&& queue.after(event).queue[q].value == (if event == (Event::<FS, V>::TakeValue {
                n: p,
            }) {
                None
            } else {
                queue.queue[p].value
            })
        }),
{
    match event {
        Event::Resume { mutex_poisoned, condvar } => {
            if queue.at_front(condvar) {
                lemma_resume::<FS, V, ()>(queue, mutex_poisoned, condvar);
                assert(queue.pop_front().queue[p - 1] == queue.queue[p]);
            }
        },
        _ => {},
    }
}

/// A call pops the task that it pushed. If a call has pushed its task with event `i`, the task has
/// not left the queue by state `j`, and the task at the front in state `j` waits on the call's
/// condition variable, then that task is the one which the call pushed: all tasks before it have
/// left, and its value is the call's value, unless that has been taken.
pub proof fn law_call_pops_its_own_task<FS, V>(
    states: Seq<QueueView<FS, V>>,
    events: Seq<Event<FS, V>>,
    i: int,
    j: int,
    mutex: MutexInfo,
    condvar: usize,
    value: V,
)
    requires
        history(states, events),
        states[0].wf(),
        0 <= i < j < states.len(),
        events[i] == (Event::<FS, V>::Process { mutex, condvar, value }),
        states[i].step::<()>(events[i]) == Some(ProcessStep::<FS, V, ()>::Wait),
        departed(states, events, i + 1, j) <= states[i].queue.len(),
        states[j].at_front(condvar),
    ensures
        departed(states, events, i + 1, j) == states[i].queue.len(),
        states[j].queue[0].value == Some(value) || states[j].queue[0].value is None,
{
    let p = states[i].queue.len() as int;
    let d = departed(states, events, i + 1, j);
    assert(states[i + 1] == states[i].after(events[i]));
    lemma_history_wf(states, events, i);
    assert(states[i + 1].queue[p].condvar == condvar);
    assert(states[i + 1].queue[p].value == Some(value));
    law_first_in_first_out(states, events, i + 1, j, p);
    lemma_history_wf(states, events, j);
    if d < p {
        assert(states[j].queue[0].condvar != states[j].queue[p - d].condvar);
    }
}

/// The whole of a wait. If a call has pushed its task with event `i`, and event `j` is the step
/// with which the call whose task is at the front, and that waits on the same condition variable,
/// goes to the front, the task not having left before, then:
/// - the task was pushed behind all tasks that were waiting, and all of these have left;
/// - the task that leaves is the one which the call pushed, and no other task leaves: those that
///   came later keep their order and their values;
/// - nothing of the call is in the queue any more, and the call has the front, with its state.
pub proof fn law_waiting_call_comes_to_the_front<FS, V>(
    states: Seq<QueueView<FS, V>>,
    events: Seq<Event<FS, V>>,
    i: int,
    j: int,
    mutex: MutexInfo,
    mutex_poisoned: bool,
    condvar: usize,
    value: V,
)
    requires
        history(states, events),
        states[0].wf(),
        0 <= i < j < events.len(),
        events[i] == (Event::<FS, V>::Process { mutex, condvar, value }),
        states[i].step::<()>(events[i]) == Some(ProcessStep::<FS, V, ()>::Wait),
        departed(states, events, i + 1, j) <= states[i].queue.len(),
        events[j] == (Event::<FS, V>::Resume { mutex_poisoned, condvar }),
        states[j].at_front(condvar),
    ensures
        states[i + 1].queue == states[i].queue.push(
            TaskView { condvar, at_front: false, panicked: false, value: Some(value) },
        ),
        departed(states, events, i + 1, j) == states[i].queue.len(),
        states[j].queue[0].value == Some(value) || states[j].queue[0].value is None,
        same_tasks_from(states[j], states[j + 1], 1),
        !states[j + 1].waits(condvar),
        states[j].front_state is Some,
        states[j].come_to_front(events[j]).front_locked,
        states[j].come_to_front(events[j]).front_state is None,
{
    assert(states[i + 1] == states[i].after(events[i]));
    assert(states[j + 1] == states[j].after(events[j]));
    law_call_pops_its_own_task(states, events, i, j, mutex, condvar, value);
    lemma_history_wf(states, events, j);
    let queue = states[j];
    law_queue_keeps_only_waiting_tasks::<FS, V, ()>(queue, events[j], condvar);
    lemma_resume::<FS, V, ()>(queue, mutex_poisoned, condvar);
    let popped = queue.pop_front();
    let now = states[j + 1];
    assert forall|k: int| 1 <= k < queue.queue.len() implies now.queue[k - 1].condvar == (
    #[trigger] queue.queue[k]).condvar && now.queue[k - 1].value == queue.queue[k].value by {
        assert(popped.queue[k - 1] == queue.queue[k]);
    }
}

/// Event `m` takes the value of the task that was the `k`-th in state `i`.
pub open spec fn takes_value_of<FS, V>(
    states: Seq<QueueView<FS, V>>,
    events: Seq<Event<FS, V>>,
    i: int,
    k: int,
    m: int,
) -> bool {
    events[m] == (Event::<FS, V>::TakeValue { n: k - departed(states, events, i, m) })
}

/// A value goes to one call only: it is taken at most once, and as long as it has not been taken,
/// the task has it for the task's own call.
pub proof fn law_value_goes_to_one_call<FS, V>(
    states: Seq<QueueView<FS, V>>,
    events: Seq<Event<FS, V>>,
    i: int,
    j: int,
    k: int,
)
    requires
        history(states, events),
        states[0].wf(),
        0 <= i <= j < states.len(),
        departed(states, events, i, j) <= k < states[i].queue.len(),
        states[i].queue[k].value is Some,
    ensures
        states[j].queue[k - departed(states, events, i, j)].value == (if exists|m: int|
            i <= m < j && #[trigger] takes_value_of(states, events, i, k, m) {
            None
        } else {
            states[i].queue[k].value
        }),
        forall|m: int|
            i <= m < j && #[trigger] takes_value_of(states, events, i, k, m)
                ==> states[m].next_value(k - departed(states, events, i, m))
                == states[i].queue[k].value,
        forall|m1: int, m2: int|
            i <= m1 < j && i <= m2 < j && #[trigger] takes_value_of(states, events, i, k, m1)
                && #[trigger] takes_value_of(states, events, i, k, m2) ==> m1 == m2,
    decreases j,
{
    if i < j {
        law_value_goes_to_one_call(states, events, i, j - 1, k);
        law_first_in_first_out(states, events, i, j - 1, k);
        lemma_history_wf(states, events, j - 1);
        let p = k - departed(states, events, i, j - 1);
        lemma_task_moves_up(states[j - 1], events[j - 1], p);
        if takes_value_of(states, events, i, k, j - 1) {
            lemma_take_value(states[j - 1], p);
        } else {
            assert(states[j].queue[k - departed(states, events, i, j)].value
                == states[j - 1].queue[p].value);
        }
    }
}

/// What becomes of the tasks whose values the call at the front has taken is settled when that
/// call leaves. If it has taken `n` values, then until `n` tasks have left, the remaining ones of
/// those `n` tasks are the first of the queue; each of their calls is told that its value was
/// processed elsewhere, if the call that took it has returned, and that its processing panicked,
/// if the call that took it has panicked (unless the queue is still poisoned and the options say
/// to panic then).
pub proof fn law_taken_values_are_reported<FS, V, R>(
    states: Seq<QueueView<FS, V>>,
    events: Seq<Event<FS, V>>,
    i: int,
    j: int,
    n: int,
    mutex_poisoned: bool,
)
    requires
        history(states, events),
        states[0].wf(),
        0 <= i < j < states.len(),
        states[i].processing(),
        states[i].absorbed(n),
        events[i] is Finish || events[i] is FinishPanicking,
        departed(states, events, i + 1, j) < n,
    ensures
        states[j].absorbed(n - departed(states, events, i + 1, j)),
        states[j].queue.len() > 0,
        states[j].queue[0].at_front ==> {
            let step = states[j].resume::<R>(mutex_poisoned, states[j].queue[0].condvar).1;
            let poisoned = states[j].options.unwrap_queue_poison && states[j].queue_poisoned;
            &&& events[i] is Finish ==> step is Return && step->result is ProcessedElsewhere
            &&& events[i] is FinishPanicking && !poisoned ==> step is Return && step->result
                is ProcessingPanicked
            &&& events[i] is FinishPanicking && poisoned ==> step is Panic && step->reason
                is QueuePoisoned
        },
{
    lemma_batch_settled(states, events, i, j, n);
    lemma_history_wf(states, events, j);
    if states[j].queue[0].at_front {
        lemma_resume::<FS, V, R>(states[j], mutex_poisoned, states[j].queue[0].condvar);
    }
}

/// As long as not all of the tasks have left whose values a call took, it stays known what became
/// of that call.
proof fn lemma_batch_settled<FS, V>(
    states: Seq<QueueView<FS, V>>,
    events: Seq<Event<FS, V>>,
    i: int,
    j: int,
    n: int,
)
    requires
        history(states, events),
        states[0].wf(),
        0 <= i < j < states.len(),
        states[i].processing(),
        states[i].absorbed(n),
        events[i] is Finish || events[i] is FinishPanicking,
        departed(states, events, i + 1, j) < n,
    ensures
        states[j].absorbed(n - departed(states, events, i + 1, j)),
        events[i] is Finish ==> states[j].batch is Completed,
        events[i] is FinishPanicking ==> states[j].batch is Panicked,
    decreases j,
{
    if j == i + 1 {
        lemma_leave_front_absorbed(states[i], events[i], n);
    } else {
        lemma_batch_settled(states, events, i, j - 1, n);
        lemma_history_wf(states, events, j - 1);
        let m = n - departed(states, events, i + 1, j - 1);
        lemma_batch_kept(states[j - 1], events[j - 1], m);
    }
}

/// Leaving the front takes no value.
proof fn lemma_leave_front_absorbed<FS, V>(queue: QueueView<FS, V>, event: Event<FS, V>, n: int)
    requires
        queue.absorbed(n),
        event is Finish || event is FinishPanicking,
    ensures
        queue.after(event).absorbed(n),
{
    let after = queue.after(event);
    assert forall|i: int| 0 <= i < after.queue.len() implies ((
    #[trigger] after.queue[i]).value is None <==> i < n) by {
        assert(after.queue[i].value == queue.queue[i].value);
    }
}

/// While some task has lost its value to a call that has left, it stays known what became of that
/// call.
proof fn lemma_batch_kept<FS, V>(queue: QueueView<FS, V>, event: Event<FS, V>, m: int)
    requires
        queue.wf(),
        queue.allows(event),
        queue.absorbed(m),
        m > 0,
        !(queue.batch is Running),
    ensures
        queue.after(event).batch == queue.batch,
        queue.after(event).absorbed(
            if queue.departs(event) {
                m - 1
            } else {
                m
            },
        ),
{
    assert(queue.queue[0].value is None);
    match event {
        Event::UseMutex { mutex } => lemma_bind(queue, mutex),
        Event::Process { mutex, condvar, value } => lemma_contended_process(
            queue,
            mutex,
            condvar,
            value,
        ),
        Event::Resume { mutex_poisoned, condvar } => {
            if queue.at_front(condvar) {
                lemma_resume::<FS, V, ()>(queue, mutex_poisoned, condvar);
                lemma_pop_front(queue);
                let popped = queue.pop_front();
                let after = queue.after(event);
                assert(popped.absorbed(m - 1));
                assert forall|i: int| 0 <= i < after.queue.len() implies ((
                #[trigger] after.queue[i]).value is None <==> i < m - 1) by {
                    assert(after.queue[i].value == popped.queue[i].value);
                }
            }
        },
        Event::FinishPanicking { front_state } => lemma_leave_front_absorbed(queue, event, m),
        Event::ClearPoison => lemma_clear_poison(queue),
        _ => {},
    }
}

/// No wake-up is lost. While no call is at the front, the first task of the queue has been woken;
/// no other task has been. Nobody waits in a queue that nobody is at the front of or about to be.
pub proof fn law_no_wakeup_is_lost<FS, V>(queue: QueueView<FS, V>)
    requires
        queue.wf(),
    ensures
        queue.queue.len() > 0 && !queue.active() ==> queue.queue[0].at_front,
        queue.queue.len() > 0 && queue.active() ==> !queue.queue[0].at_front,
        forall|i: int| 1 <= i < queue.queue.len() ==> !(#[trigger] queue.queue[i]).at_front,
        queue.queue.len() > 0 ==> queue.front_locked,
        !queue.active() ==> (queue.front_locked <==> queue.queue.len() > 0),
        !queue.active() <==> queue.front_state is Some,
{
    if queue.active() && queue.queue.len() > 0 {
        assert(queue.queue[0].asleep());
    }
    assert forall|i: int| 1 <= i < queue.queue.len() implies !(
    #[trigger] queue.queue[i]).at_front by {
        assert(queue.queue[i].asleep());
    }
}

/// Whoever leaves the front, by returning or by panicking, wakes the call whose task is then the
/// first, if there is one, and otherwise leaves the front free. The front state stays behind: as
/// the call that processed its value, or panicked, has left it, or else as it was.
pub proof fn law_leaving_wakes_the_next_call<FS, V, R>(
    queue: QueueView<FS, V>,
    event: Event<FS, V>,
)
    requires
        queue.wf(),
        queue.allows(event),
        event is Finish || event is FinishPanicking || (queue.step::<R>(event) is Some
            && queue.step::<R>(event)->0 is Return),
    ensures
        queue.after(event).queue.len() > 0 ==> queue.after(event).at_front(
            queue.after(event).queue[0].condvar,
        ),
        queue.after(event).queue.len() == 0 ==> queue.after(event).idle(),
        queue.after(event).front_locked <==> queue.after(event).queue.len() > 0,
        forall|i: int|
            1 <= i < queue.after(event).queue.len() ==> (
            #[trigger] queue.after(event).queue[i]).asleep(),
        queue.after(event).front_state == (match event {
            Event::Finish { front_state } => Some(front_state),
            Event::FinishPanicking { front_state } => Some(front_state),
            _ => queue.front_state,
        }),
        event is Finish || event is FinishPanicking ==> queue.after(event).next_waiter()
            == queue.next_waiter(),
        queue.step::<R>(event) is Some ==> queue.step::<R>(event)->0->wake == queue.after(
            event,
        ).next_waiter(),
{
    law_events_keep_queue_well_formed(queue, event);
    match event {
        Event::Resume { mutex_poisoned, condvar } => {
            lemma_resume::<FS, V, R>(queue, mutex_poisoned, condvar);
        },
        _ => {},
    }
}

/// The state after a call has left the front, and then the calls of the first `k` tasks have
/// resumed, one after the other. The mutex is poisoned or not when the `i`-th does, as
/// `mutex_poisoned(i)` says.
pub open spec fn drained<FS, V>(
    queue: QueueView<FS, V>,
    leaving: Event<FS, V>,
    mutex_poisoned: spec_fn(nat) -> bool,
    k: nat,
) -> QueueView<FS, V>
    decreases k,
{
    if k == 0 {
        queue.after(leaving)
    } else {
        let before = drained(queue, leaving, mutex_poisoned, (k - 1) as nat);
        before.resume::<()>(mutex_poisoned((k - 1) as nat), before.queue[0].condvar).0
    }
}

/// `now` has the same tasks with the same values as `queue`, but for the first `k`.
pub open spec fn same_tasks_from<FS, V>(
    queue: QueueView<FS, V>,
    now: QueueView<FS, V>,
    k: int,
) -> bool {
    &&& now.queue.len() == queue.queue.len() - k
    &&& forall|i: int|
        k <= i < queue.queue.len() ==> now.queue[i - k].condvar == (
        #[trigger] queue.queue[i]).condvar && now.queue[i - k].value == queue.queue[i].value
}

/// The tasks that were merged into the one at the front are woken up in order, and then the
/// following unprocessed task is. When a call leaves that has taken `n` values, it wakes the first
/// task; each of the first `n` tasks' calls, when it resumes, reports what became of its value and
/// wakes the next task; and after these the next task, which has its value, is woken, or the queue
/// is idle. (The call may have panicked, if the options say to ignore the poison which that
/// leaves; otherwise see [`law_unwrapped_poison_reaches_every_waiting_call`].)
pub proof fn law_merged_tasks_wake_up_in_order<FS, V, R>(
    queue: QueueView<FS, V>,
    leaving: Event<FS, V>,
    mutex_poisoned: spec_fn(nat) -> bool,
    n: int,
    k: nat,
)
    requires
        queue.processing(),
        queue.absorbed(n),
        leaving is Finish || (leaving is FinishPanicking && !queue.options.unwrap_queue_poison),
        k <= n,
    ensures
        drained(queue, leaving, mutex_poisoned, k).wf(),
        same_tasks_from(queue, drained(queue, leaving, mutex_poisoned, k), k as int),
        k < queue.queue.len() ==> drained(queue, leaving, mutex_poisoned, k).at_front(
            queue.queue[k as int].condvar,
        ),
        k == queue.queue.len() ==> drained(queue, leaving, mutex_poisoned, k).idle(),
        k < n ==> {
            let step = drained(queue, leaving, mutex_poisoned, k).resume::<R>(
                mutex_poisoned(k),
                queue.queue[k as int].condvar,
            ).1;
            &&& step is Return
            &&& leaving is Finish ==> step->result is ProcessedElsewhere
            &&& leaving is FinishPanicking ==> step->result is ProcessingPanicked
            &&& k + 1 < queue.queue.len() ==> step->wake == Some(
                queue.queue[k as int + 1].condvar,
            )
            &&& k + 1 == queue.queue.len() ==> step->wake is None
        },
        k == n ==> drained(queue, leaving, mutex_poisoned, k).absorbed(0),
{
    let now = drained(queue, leaving, mutex_poisoned, k);
    lemma_drained(queue, leaving, mutex_poisoned, n, k);
    if k < queue.queue.len() {
        assert(now.queue[0].condvar == queue.queue[k as int].condvar);
    }
    if k < n {
        lemma_resume::<FS, V, R>(now, mutex_poisoned(k), queue.queue[k as int].condvar);
        assert(queue.queue[k as int].value is None);
        if k + 1 < queue.queue.len() {
            assert(now.pop_front().queue[0] == now.queue[1]);
            assert(queue.queue[k as int + 1].condvar == now.queue[1].condvar);
        }
    }
}

/// The states that [`law_merged_tasks_wake_up_in_order`] speaks of.
proof fn lemma_drained<FS, V>(
    queue: QueueView<FS, V>,
    leaving: Event<FS, V>,
    mutex_poisoned: spec_fn(nat) -> bool,
    n: int,
    k: nat,
)
    requires
        queue.processing(),
        queue.absorbed(n),
        leaving is Finish || (leaving is FinishPanicking && !queue.options.unwrap_queue_poison),
        k <= n,
    ensures
        drained(queue, leaving, mutex_poisoned, k).wf(),
        same_tasks_from(queue, drained(queue, leaving, mutex_poisoned, k), k as int),
        drained(queue, leaving, mutex_poisoned, k).absorbed(n - k),
        leaving is Finish ==> drained(queue, leaving, mutex_poisoned, k).batch is Completed,
        leaving is FinishPanicking ==> drained(queue, leaving, mutex_poisoned, k).batch is Panicked,
        drained(queue, leaving, mutex_poisoned, k).options == queue.options,
        k < queue.queue.len() ==> drained(queue, leaving, mutex_poisoned, k).handed_over(),
        k == queue.queue.len() ==> drained(queue, leaving, mutex_poisoned, k).idle(),
    decreases k,
{
    if k == 0 {
        law_events_keep_queue_well_formed(queue, leaving);
        lemma_leave_front_absorbed(queue, leaving, n);
    } else {
        let j = (k - 1) as nat;
        lemma_drained(queue, leaving, mutex_poisoned, n, j);
        let before = drained(queue, leaving, mutex_poisoned, j);
        let now = drained(queue, leaving, mutex_poisoned, k);
        lemma_drain_one(before, mutex_poisoned(j), n - j);
        assert forall|i: int| k <= i < queue.queue.len() implies now.queue[i - k].condvar == (
        #[trigger] queue.queue[i]).condvar && now.queue[i - k].value == queue.queue[i].value by {
            assert(now.queue[i - j - 1].condvar == before.queue[i - j].condvar);
        }
    }
}

/// The call of the first task resumes, having lost its value.
proof fn lemma_drain_one<FS, V>(queue: QueueView<FS, V>, mutex_poisoned: bool, m: int)
    requires
        queue.wf(),
        queue.handed_over(),
        queue.absorbed(m),
        m > 0,
        queue.batch is Completed || !queue.options.unwrap_queue_poison,
    ensures
        ({
            let now = queue.resume::<()>(mutex_poisoned, queue.queue[0].condvar).0;
            &&& now.wf()
            &&& same_tasks_from(queue, now, 1)
            &&& now.absorbed(m - 1)
            &&& now.batch == queue.batch
            &&& now.options == queue.options
            &&& now.queue.len() > 0 ==> now.handed_over()
            &&& now.queue.len() == 0 ==> now.idle()
        }),
{
    let condvar = queue.queue[0].condvar;
    let event = Event::<FS, V>::Resume { mutex_poisoned, condvar };
    let popped = queue.pop_front();
    let now = queue.resume::<()>(mutex_poisoned, condvar).0;
    assert(queue.queue[0].value is None);
    lemma_resume::<FS, V, ()>(queue, mutex_poisoned, condvar);
    lemma_batch_kept(queue, event, m);
    assert(now.front_state is Some);
    assert forall|i: int| 1 <= i < queue.queue.len() implies now.queue[i - 1].condvar == (
    #[trigger] queue.queue[i]).condvar && now.queue[i - 1].value == queue.queue[i].value by {
        assert(popped.queue[i - 1] == queue.queue[i]);
    }
}

/// The wake-ups of merged tasks, whatever other calls do meanwhile. When a call leaves that has
/// taken `n` values, then until `n` tasks have left, no call processes anything: the first task is
/// always the one that has been woken. All tasks that were waiting then, in particular the `n`-th,
/// which is the first unprocessed one, keep their values and move up as those before them leave;
/// so that one is woken when `n` tasks have left. (The call may have panicked, if the options say
/// to ignore the poison which that leaves.)
pub proof fn law_merged_tasks_wake_up_among_other_calls<FS, V>(
    states: Seq<QueueView<FS, V>>,
    events: Seq<Event<FS, V>>,
    i: int,
    j: int,
    n: int,
)
    requires
        history(states, events),
        states[0].wf(),
        0 <= i < j < states.len(),
        states[i].processing(),
        states[i].absorbed(n),
        events[i] is Finish || (events[i] is FinishPanicking
            && !states[i].options.unwrap_queue_poison),
        departed(states, events, i + 1, j) <= n,
        departed(states, events, i + 1, j) < states[i].queue.len(),
    ensures
        states[j].handed_over(),
        states[j].absorbed(n - departed(states, events, i + 1, j)),
        forall|k: int|
            departed(states, events, i + 1, j) <= k < states[i].queue.len() ==> {
                let d = departed(states, events, i + 1, j);
                &&& k - d < states[j].queue.len()
                &&& states[j].queue[k - d].condvar == (#[trigger] states[i].queue[k]).condvar
                &&& states[j].queue[k - d].value == states[i].queue[k].value
            },
    decreases j,
{
    lemma_history_wf(states, events, j);
    if j == i + 1 {
        assert(states[j] == states[i].after(events[i]));
        lemma_leave_front_absorbed(states[i], events[i], n);
        law_leaving_wakes_the_next_call::<FS, V, ()>(states[i], events[i]);
    } else {
        let before = states[j - 1];
        let event = events[j - 1];
        let d = departed(states, events, i + 1, j - 1);
        law_merged_tasks_wake_up_among_other_calls(states, events, i, j - 1, n);
        lemma_history_wf(states, events, j - 1);
        assert(states[j] == before.after(event));
        if d + 1 < states[i].queue.len() {
            assert(before.queue[1].condvar == states[i].queue[d as int + 1].condvar);
        }
        if d < n {
            lemma_batch_settled(states, events, i, j - 1, n);
        }
        law_options_and_mutex_are_fixed(states, events, i, j - 1);
        lemma_hand_over_goes_on(before, event, n - d);
        assert forall|k: int|
            departed(states, events, i + 1, j) <= k < states[i].queue.len() implies ({
            let e = departed(states, events, i + 1, j);
            &&& k - e < states[j].queue.len()
            &&& states[j].queue[k - e].condvar == (#[trigger] states[i].queue[k]).condvar
            &&& states[j].queue[k - e].value == states[i].queue[k].value
        }) by {
            lemma_task_moves_up(before, event, k - d);
        }
    }
}

/// While the first task has been woken, and the calls that leave the queue only return, the first
/// task is always one that has been woken.
proof fn lemma_hand_over_goes_on<FS, V>(queue: QueueView<FS, V>, event: Event<FS, V>, m: int)
    requires
        queue.wf(),
        queue.handed_over(),
        queue.allows(event),
        queue.absorbed(m),
        queue.departs(event) ==> {
            &&& m > 0
            &&& queue.queue.len() > 1
            &&& queue.batch is Completed || !queue.options.unwrap_queue_poison
        },
    ensures
        queue.after(event).handed_over(),
        queue.after(event).absorbed(
            if queue.departs(event) {
                m - 1
            } else {
                m
            },
        ),
        !(event is TakeValue),
{
    law_events_keep_queue_well_formed(queue, event);
    match event {
        Event::UseMutex { mutex } => lemma_bind(queue, mutex),
        Event::Process { mutex, condvar, value } => lemma_contended_process(
            queue,
            mutex,
            condvar,
            value,
        ),
        Event::Resume { mutex_poisoned, condvar } => {
            if queue.at_front(condvar) {
                lemma_drain_one(queue, mutex_poisoned, m);
            }
        },
        Event::ClearPoison => lemma_clear_poison(queue),
        _ => {},
    }
}

/// The state after the calls of the first `k` tasks have each resumed and, having been told to
/// panic, have left with the front state that they were given. The mutex is poisoned or not when
/// the `i`-th resumes, as `mutex_poisoned(i)` says.
pub open spec fn panicked_through<FS, V>(
    queue: QueueView<FS, V>,
    mutex_poisoned: spec_fn(nat) -> bool,
    k: nat,
) -> QueueView<FS, V>
    decreases k,
{
    if k == 0 {
        queue
    } else {
        let before = panicked_through(queue, mutex_poisoned, (k - 1) as nat);
        let (at_front, step) = before.resume::<()>(
            mutex_poisoned((k - 1) as nat),
            before.queue[0].condvar,
        );
        at_front.finish_panicking(step->Panic_front_state)
    }
}

/// Unwrapped queue poison goes through the whole queue. When the first task of a poisoned queue
/// has been woken, the waiting calls come to the front in order; each is told to panic, so that
/// none processes its value, and each wakes the next when it leaves, telling it of the panic. After
/// the last one, nobody is at the front and nobody waits; the front state is what it was. Whether
/// the mutex is poisoned does not matter.
pub proof fn law_unwrapped_poison_reaches_every_waiting_call<FS, V, R>(
    queue: QueueView<FS, V>,
    mutex_poisoned: spec_fn(nat) -> bool,
    k: nat,
)
    requires
        queue.wf(),
        queue.handed_over(),
        queue.queue_poisoned,
        queue.options.unwrap_queue_poison,
        k <= queue.queue.len(),
    ensures
        panicked_through(queue, mutex_poisoned, k).wf(),
        panicked_through(queue, mutex_poisoned, k).queue_poisoned,
        panicked_through(queue, mutex_poisoned, k).options == queue.options,
        panicked_through(queue, mutex_poisoned, k).front_state == queue.front_state,
        same_tasks_from(queue, panicked_through(queue, mutex_poisoned, k), k as int),
        k < queue.queue.len() ==> {
            let now = panicked_through(queue, mutex_poisoned, k);
            let (after, step) = now.resume::<R>(
                mutex_poisoned(k),
                queue.queue[k as int].condvar,
            );
            &&& now.at_front(queue.queue[k as int].condvar)
            &&& k > 0 ==> now.queue[0].panicked
            &&& step == (ProcessStep::<FS, V, R>::Panic {
                reason: PoisonPanic::QueuePoisoned,
                front_state: queue.front_state->0,
            })
            &&& after.active()
            &&& k + 1 < queue.queue.len() ==> after.next_waiter() == Some(
                queue.queue[k as int + 1].condvar,
            )
            &&& k + 1 == queue.queue.len() ==> after.next_waiter() is None
        },
        k < queue.queue.len() ==> panicked_through(queue, mutex_poisoned, k).handed_over(),
        k == queue.queue.len() ==> panicked_through(queue, mutex_poisoned, k).idle(),
    decreases k,
{
    let now = panicked_through(queue, mutex_poisoned, k);
    if k > 0 {
        let j = (k - 1) as nat;
        law_unwrapped_poison_reaches_every_waiting_call::<FS, V, ()>(queue, mutex_poisoned, j);
        let before = panicked_through(queue, mutex_poisoned, j);
        lemma_panic_through_one(before, mutex_poisoned(j));
        assert forall|i: int| k <= i < queue.queue.len() implies now.queue[i - k].condvar == (
        #[trigger] queue.queue[i]).condvar && now.queue[i - k].value == queue.queue[i].value by {
            assert(now.queue[i - j - 1].condvar == before.queue[i - j].condvar);
        }
    }
    if k < queue.queue.len() {
        let condvar = queue.queue[k as int].condvar;
        assert(now.queue[0].condvar == condvar);
        lemma_resume::<FS, V, R>(now, mutex_poisoned(k), condvar);
        if k + 1 < queue.queue.len() {
            assert(now.pop_front().queue[0] == now.queue[1]);
            assert(queue.queue[k as int + 1].condvar == now.queue[1].condvar);
        }
    }
}

/// The call of the first task resumes in a poisoned queue, panics, and leaves.
proof fn lemma_panic_through_one<FS, V>(queue: QueueView<FS, V>, mutex_poisoned: bool)
    requires
        queue.wf(),
        queue.handed_over(),
        queue.queue_poisoned,
        queue.options.unwrap_queue_poison,
    ensures
        ({
            let (at_front, step) = queue.resume::<()>(mutex_poisoned, queue.queue[0].condvar);
            let now = at_front.finish_panicking(step->Panic_front_state);
            &&& now.wf()
            &&& now.queue_poisoned
            &&& now.options == queue.options
            &&& now.front_state == queue.front_state
            &&& same_tasks_from(queue, now, 1)
            &&& now.queue.len() > 0 ==> now.handed_over() && now.queue[0].panicked
            &&& now.queue.len() == 0 ==> now.idle()
        }),
{
    let condvar = queue.queue[0].condvar;
    let (at_front, step) = queue.resume::<()>(mutex_poisoned, condvar);
    let now = at_front.finish_panicking(step->Panic_front_state);
    lemma_resume::<FS, V, ()>(queue, mutex_poisoned, condvar);
    lemma_finish_panicking(at_front, step->Panic_front_state);
    assert forall|i: int| 1 <= i < queue.queue.len() implies now.queue[i - 1].condvar == (
    #[trigger] queue.queue[i]).condvar && now.queue[i - 1].value == queue.queue[i].value by {
        assert(at_front.queue[i - 1] == queue.queue[i]);
    }
}

/// The options of a queue never change, and neither does the address of its mutex, once there is
/// one.
pub proof fn law_options_and_mutex_are_fixed<FS, V>(
    states: Seq<QueueView<FS, V>>,
    events: Seq<Event<FS, V>>,
    i: int,
    j: int,
)
    requires
        history(states, events),
        0 <= i <= j < states.len(),
    ensures
        states[j].options == states[i].options,
        states[i].mutex_address != 0 ==> states[j].mutex_address == states[i].mutex_address,
    decreases j,
{
    if i < j {
        law_options_and_mutex_are_fixed(states, events, i, j - 1);
        let event = events[j - 1];
        assert(states[j] == states[j - 1].after(event));
    }
}

/// All calls on one queue have to use the same mutex. Once a mutex has been used, a call with a
/// mutex at another address is rejected, and leaves the queue as it is; a mutex at the same address
/// is not rejected, unless it takes up no memory.
pub proof fn law_all_calls_use_the_same_mutex<FS, V, R>(
    queue: QueueView<FS, V>,
    mutex: MutexInfo,
    condvar: usize,
    value: V,
)
    requires
        queue.mutex_address != 0,
    ensures
        mutex.address != queue.mutex_address ==> queue.process::<R>(mutex, condvar, value) == (
            queue,
            ProcessStep::<FS, V, R>::Misused(MutexMisuse::DifferentMutex),
        ),
        mutex.address == queue.mutex_address && mutex.size > 0 ==> !(queue.process::<R>(
            mutex,
            condvar,
            value,
        ).1 is Misused),
{
}

/// A queue becomes poisoned only when a call at the front panics, and then it stays poisoned until
/// poison is cleared.
pub proof fn law_poison_lasts_until_cleared<FS, V>(
    states: Seq<QueueView<FS, V>>,
    events: Seq<Event<FS, V>>,
    i: int,
    j: int,
)
    requires
        history(states, events),
        0 <= i <= j < states.len(),
    ensures
        (states[i].queue_poisoned || exists|k: int|
            i <= k < j && (#[trigger] events[k]) is FinishPanicking) && (forall|k: int|
            i <= k < j ==> !((#[trigger] events[k]) is ClearPoison)) ==> states[j].queue_poisoned,
        !states[i].queue_poisoned && (forall|k: int|
            i <= k < j ==> !((#[trigger] events[k]) is FinishPanicking))
            ==> !states[j].queue_poisoned,
    decreases j,
{
    if i < j {
        law_poison_lasts_until_cleared(states, events, i, j - 1);
        let event = events[j - 1];
        assert(states[j] == states[j - 1].after(event));
        if (states[i].queue_poisoned || exists|k: int|
            i <= k < j && (#[trigger] events[k]) is FinishPanicking) && (forall|k: int|
            i <= k < j ==> !((#[trigger] events[k]) is ClearPoison)) {
            if !(event is FinishPanicking) {
                assert(states[j - 1].queue_poisoned);
            }
        }
    }
}

/// Unwrapping queue poison propagates panics: while the queue is poisoned, a call that comes to the
/// front panics. If queue poison is not unwrapped, no call panics on account of it, and a call
/// whose value nobody has taken processes the value (unless it unwraps the poison of a mutex).
pub proof fn law_queue_poison_is_unwrapped_or_ignored<FS, V, R>(
    queue: QueueView<FS, V>,
    event: Event<FS, V>,
)
    requires
        queue.wf(),
        queue.allows(event),
        queue.reaches_front(event),
        queue.queue_poisoned,
    ensures
        queue.step::<R>(event) is Some,
        queue.options.unwrap_queue_poison ==> {
            let step = queue.step::<R>(event)->0;
            step is Panic && step->reason is QueuePoisoned
        },
        !queue.options.unwrap_queue_poison ==> {
            let step = queue.step::<R>(event)->0;
            let mutex_poisoned = match event {
                Event::Process { mutex, condvar, value } => mutex.poisoned,
                Event::Resume { mutex_poisoned, condvar } => mutex_poisoned,
                _ => false,
            };
            let has_value = event is Process || queue.queue[0].value is Some;
            &&& step is Panic ==> step->reason is MutexPoisoned
            &&& has_value && !(queue.options.unwrap_mutex_poison && mutex_poisoned) ==> step is Run
            &&& !has_value ==> step is Return
        },
{
}

/// Unwrapped queue poison stops all processing, whatever calls come meanwhile: from when a queue is
/// poisoned until poison is cleared, every call that comes to the front is told to panic. That goes
/// for the call whose task was the `k`-th, too, which comes to the front when the `k` tasks before
/// it have left.
pub proof fn law_unwrapped_poison_stops_all_processing<FS, V, R>(
    states: Seq<QueueView<FS, V>>,
    events: Seq<Event<FS, V>>,
    i: int,
    j: int,
    k: int,
    mutex_poisoned: bool,
)
    requires
        history(states, events),
        states[0].wf(),
        0 <= i <= j < states.len(),
        states[i].queue_poisoned,
        states[i].options.unwrap_queue_poison,
        forall|m: int| i <= m < j ==> !((#[trigger] events[m]) is ClearPoison),
    ensures
        states[j].queue_poisoned,
        j < events.len() && states[j].reaches_front(events[j]) ==> {
            let step = states[j].step::<R>(events[j])->0;
            step is Panic && step->reason is QueuePoisoned
        },
        0 <= k < states[i].queue.len() && departed(states, events, i, j) == k ==> {
            &&& states[j].queue.len() > 0
            &&& states[j].queue[0].condvar == states[i].queue[k].condvar
            &&& !states[j].active() ==> {
                let step = states[j].resume::<R>(mutex_poisoned, states[i].queue[k].condvar).1;
                step is Panic && step->reason is QueuePoisoned
            }
        },
{
    lemma_history_wf(states, events, j);
    law_poison_lasts_until_cleared(states, events, i, j);
    law_options_and_mutex_are_fixed(states, events, i, j);
    if 0 <= k < states[i].queue.len() && departed(states, events, i, j) == k {
        law_first_in_first_out(states, events, i, j, k);
        law_no_wakeup_is_lost(states[j]);
    }
}

/// Other calls do not disturb the call at the front while it has unlocked the mutex. Whatever they
/// do, the call at the front is still there afterwards, its handle still stands before the first
/// task that has its value, and the tasks that were queued are still there, unchanged, in front of
/// any new ones.
pub proof fn law_unlocking_keeps_the_front<FS, V>(
    states: Seq<QueueView<FS, V>>,
    events: Seq<Event<FS, V>>,
    i: int,
    n: int,
)
    requires
        history(states, events),
        states[0].processing(),
        states[0].absorbed(n),
        0 <= i < states.len(),
        forall|k: int|
            0 <= k < i ==> (#[trigger] events[k]) is UseMutex || events[k] is Process
                || events[k] is Resume || events[k] is ClearPoison,
    ensures
        states[i].processing(),
        states[i].absorbed(n),
        states[0].queue.is_prefix_of(states[i].queue),
    decreases i,
{
    if i > 0 {
        law_unlocking_keeps_the_front(states, events, i - 1, n);
        let before = states[i - 1];
        let event = events[i - 1];
        assert(states[i] == before.after(event));
        law_events_keep_queue_well_formed(before, event);
        lemma_others_wait(before, event);
        match event {
            Event::Process { mutex, condvar, value } => lemma_contended_process(
                before,
                mutex,
                condvar,
                value,
            ),
            Event::UseMutex { mutex } => lemma_bind(before, mutex),
            Event::ClearPoison => lemma_clear_poison(before),
            _ => {},
        }
    }
}

/// The state after the call at the front has taken `k` more values, having taken `n` before.
pub open spec fn values_taken<FS, V>(queue: QueueView<FS, V>, n: int, k: nat) -> QueueView<FS, V>
    decreases k,
{
    if k == 0 {
        queue
    } else {
        values_taken(queue, n, (k - 1) as nat).take_value(n + k - 1)
    }
}

/// Values are popped in the order of the queue: the `k`-th that is popped is that of the `k`-th
/// task that had its value, until there is none left. Popping changes nothing else.
pub proof fn law_values_are_popped_in_order<FS, V>(queue: QueueView<FS, V>, n: int, k: nat)
    requires
        queue.processing(),
        queue.absorbed(n),
        n + k <= queue.queue.len(),
    ensures
        values_taken(queue, n, k).processing(),
        values_taken(queue, n, k).absorbed(n + k),
        n + k < queue.queue.len() ==> values_taken(queue, n, k).next_value(n + k) is Some
            && values_taken(queue, n, k).next_value(n + k) == queue.queue[n + k].value,
        n + k == queue.queue.len() ==> values_taken(queue, n, k).next_value(n + k) is None,
        values_taken(queue, n, k).queue.len() == queue.queue.len(),
        forall|i: int|
            0 <= i < queue.queue.len() ==> (#[trigger] values_taken(queue, n, k).queue[i]) == (
            TaskView {
                value: if n <= i < n + k {
                    None
                } else {
                    queue.queue[i].value
                },
                ..queue.queue[i]
            }),
        values_taken(queue, n, k) == (QueueView {
            queue: values_taken(queue, n, k).queue,
            ..queue
        }),
    decreases k,
{
    if k > 0 {
        let j = (k - 1) as nat;
        law_values_are_popped_in_order(queue, n, j);
        lemma_take_value(values_taken(queue, n, j), n + j);
    }
    if n + k < queue.queue.len() {
        assert(values_taken(queue, n, k).queue[n + k].value is Some);
    }
}

} // verus!
