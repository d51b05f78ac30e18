//! Why each step keeps a queue well formed.

use vstd::prelude::*;

use crate::interface::MutexInfo;
use crate::model::{arrival, Batch, QueueView};
use crate::queue::Arrival;

verus! {

/// A queue is well formed after the call at the front has left it, if the call passes on truly
/// whether the call that took the first task's value panicked.
proof fn lemma_leave_front<FS, V>(queue: QueueView<FS, V>, front_state: FS, panicking: bool)
    requires
        exists|n: int| queue.absorbed(n),
        queue.condvars_distinct(),
        queue.front_locked,
        forall|i: int| 0 <= i < queue.queue.len() ==> (#[trigger] queue.queue[i]).asleep(),
        !(queue.batch is Running),
        queue.queue.len() > 0 && queue.queue[0].value is None ==> {
            &&& panicking <==> queue.batch is Panicked
            &&& queue.options.unwrap_queue_poison && queue.queue_poisoned
                ==> queue.batch is Panicked
        },
    ensures
        queue.leave_front(front_state, panicking).wf(),
{
    let n = choose|n: int| queue.absorbed(n);
    let after = queue.leave_front(front_state, panicking);
    assert(after.absorbed(n)) by {
        assert forall|i: int| 0 <= i < after.queue.len() implies ((
        #[trigger] after.queue[i]).value is None <==> i < n) by {
            assert(queue.queue[i].value == after.queue[i].value);
        }
    }
    assert(after.condvars_distinct()) by {
        assert forall|i: int, j: int| 0 <= i < j < after.queue.len() implies (
        #[trigger] after.queue[i]).condvar != (#[trigger] after.queue[j]).condvar by {
            assert(queue.queue[i].condvar == after.queue[i].condvar);
            assert(queue.queue[j].condvar == after.queue[j].condvar);
        }
    }
    if queue.queue.len() > 0 {
        assert(queue.queue[0].asleep());
    }
}

/// A call's task joins a queue that some call is at the front of, or is about to be.
pub(crate) proof fn lemma_push<FS, V>(queue: QueueView<FS, V>, condvar: usize, value: V)
    requires
        queue.wf(),
        queue.front_locked,
        !queue.waits(condvar),
    ensures
        queue.push(condvar, value).wf(),
        forall|n: int| queue.absorbed(n) ==> queue.push(condvar, value).absorbed(n),
        queue.active() ==> queue.push(condvar, value).active(),
{
    let after = queue.push(condvar, value);
    let last = queue.queue.len() as int;
    assert forall|n: int| queue.absorbed(n) implies after.absorbed(n) by {
        assert forall|i: int| 0 <= i < after.queue.len() implies ((
        #[trigger] after.queue[i]).value is None <==> i < n) by {
            if i < last {
                assert(after.queue[i] == queue.queue[i]);
            }
        }
    }
    let n = choose|n: int| queue.absorbed(n);
    assert(after.absorbed(n));
    assert(after.condvars_distinct()) by {
        assert forall|i: int, j: int| 0 <= i < j < after.queue.len() implies (
        #[trigger] after.queue[i]).condvar != (#[trigger] after.queue[j]).condvar by {
            assert(after.queue[i] == queue.queue[i]);
            if j < last {
                assert(after.queue[j] == queue.queue[j]);
            }
        }
    }
    assert forall|i: int| 0 <= i < last implies #[trigger] after.queue[i] == queue.queue[i] by {}
    if queue.active() {
        assert(after.active());
    }
    if queue.handed_over() {
        assert(after.handed_over());
    }
}

/// A call's task joins a queue that some call is at the front of, or is about to be, unless the
/// call's mutex is rejected.
pub(crate) proof fn lemma_contended_process<FS, V>(
    queue: QueueView<FS, V>,
    mutex: MutexInfo,
    condvar: usize,
    value: V,
)
    requires
        queue.wf(),
        queue.front_locked,
        !queue.waits(condvar),
    ensures
        ({
            let after = queue.process::<()>(mutex, condvar, value).0;
            &&& after.wf()
            &&& forall|n: int| queue.absorbed(n) ==> after.absorbed(n)
            &&& queue.active() ==> after.active()
            &&& queue.queue.is_prefix_of(after.queue)
        }),
{
    lemma_bind(queue, mutex);
    let bound = queue.bind(mutex);
    assert(bound.queue == queue.queue);
    assert(!bound.waits(condvar));
    lemma_push(bound, condvar, value);
}

/// A call at the front begins to do what the table of arrivals says.
pub(crate) proof fn lemma_begin<FS, V>(
    queue: QueueView<FS, V>,
    value: Option<V>,
    panicked: bool,
    mutex_poisoned: bool,
)
    requires
        queue.arrived(),
        queue.told_truly(value, panicked),
    ensures
        ({
            let what = arrival(
                queue.options,
                queue.queue_poisoned,
                mutex_poisoned,
                value,
                panicked,
            );
            queue.begin(what).can_go_on(what)
        }),
{
    let n = choose|n: int| queue.absorbed(n);
    let what = arrival(queue.options, queue.queue_poisoned, mutex_poisoned, value, panicked);
    assert(queue.begin(what).absorbed(n));
    if value is Some {
        assert(queue.begin(what).absorbed(0));
    }
}

/// A call at the front goes on.
pub(crate) proof fn lemma_go_on<FS, V, R>(
    queue: QueueView<FS, V>,
    front_state: FS,
    what: Arrival<V>,
)
    requires
        queue.can_go_on(what),
    ensures
        queue.go_on::<R>(front_state, what).0.wf(),
{
    match what {
        Arrival::ProcessedElsewhere => lemma_leave_front(queue, front_state, false),
        Arrival::ProcessingPanicked => lemma_leave_front(queue, front_state, true),
        _ => {},
    }
}

/// A call comes to the front of a queue.
pub(crate) proof fn lemma_arrive<FS, V, R>(
    queue: QueueView<FS, V>,
    front_state: FS,
    value: Option<V>,
    panicked: bool,
    mutex_poisoned: bool,
)
    requires
        queue.arrived(),
        queue.told_truly(value, panicked),
    ensures
        ({
            let (after, step) = queue.arrive::<R>(front_state, value, panicked, mutex_poisoned);
            &&& after.wf()
            &&& step is Run ==> after.processing() && after.absorbed(0)
            &&& step is Panic ==> after.active()
        }),
{
    let what = arrival(queue.options, queue.queue_poisoned, mutex_poisoned, value, panicked);
    lemma_begin(queue, value, panicked, mutex_poisoned);
    lemma_go_on::<FS, V, R>(queue.begin(what), front_state, what);
}

/// A call's first step keeps the queue well formed. If the step is to process the value, all
/// queued tasks have theirs.
pub(crate) proof fn lemma_process<FS, V, R>(
    queue: QueueView<FS, V>,
    mutex: MutexInfo,
    condvar: usize,
    value: V,
)
    requires
        queue.wf(),
        !queue.waits(condvar),
    ensures
        queue.bind(mutex).wf(),
        queue.process::<R>(mutex, condvar, value).0.wf(),
        queue.process::<R>(mutex, condvar, value).1 is Run ==> {
            let after = queue.process::<R>(mutex, condvar, value).0;
            after.processing() && after.absorbed(0)
        },
        queue.process::<R>(mutex, condvar, value).1 is Panic ==> queue.process::<R>(
            mutex,
            condvar,
            value,
        ).0.active(),
{
    lemma_bind(queue, mutex);
    let bound = queue.bind(mutex);
    assert(!bound.waits(condvar)) by {
        assert(bound.queue == queue.queue);
    }
    if queue.misuse(mutex) is None {
        if bound.front_locked {
            lemma_push(bound, condvar, value);
        } else {
            let acquired = bound.acquire_front();
            assert(acquired.absorbed(0));
            lemma_arrive::<FS, V, R>(
                acquired,
                bound.front_state->0,
                Some(value),
                false,
                mutex.poisoned,
            );
        }
    }
}

/// Remembering a mutex keeps the queue well formed.
pub(crate) proof fn lemma_bind<FS, V>(queue: QueueView<FS, V>, mutex: MutexInfo)
    requires
        queue.wf(),
    ensures
        queue.bind(mutex).wf(),
        queue.active() ==> queue.bind(mutex).active(),
        forall|n: int| queue.absorbed(n) ==> queue.bind(mutex).absorbed(n),
{
    let n = choose|n: int| queue.absorbed(n);
    assert(queue.bind(mutex).absorbed(n));
}

/// The step of a call that has waited keeps the queue well formed. If the step is to process the
/// value, all queued tasks have theirs.
pub(crate) proof fn lemma_resume<FS, V, R>(
    queue: QueueView<FS, V>,
    mutex_poisoned: bool,
    condvar: usize,
)
    requires
        queue.wf(),
    ensures
        queue.resume::<R>(mutex_poisoned, condvar).0.wf(),
        queue.resume::<R>(mutex_poisoned, condvar).1 is Run ==> {
            let after = queue.resume::<R>(mutex_poisoned, condvar).0;
            after.processing() && after.absorbed(0)
        },
        queue.resume::<R>(mutex_poisoned, condvar).1 is Panic ==> queue.resume::<R>(
            mutex_poisoned,
            condvar,
        ).0.active(),
        queue.at_front(condvar) ==> queue.handed_over(),
{
    if queue.at_front(condvar) {
        assert(!queue.active()) by {
            if queue.active() {
                assert(queue.queue[0].asleep());
            }
        }
        lemma_pop_front(queue);
        lemma_arrive::<FS, V, R>(
            queue.pop_front(),
            queue.front_state->0,
            queue.queue[0].value,
            queue.queue[0].panicked,
            mutex_poisoned,
        );
    }
}

/// The first task leaves a queue in which it has been woken.
pub(crate) proof fn lemma_pop_front<FS, V>(queue: QueueView<FS, V>)
    requires
        queue.wf(),
        queue.handed_over(),
    ensures
        exists|n: int| queue.pop_front().absorbed(n),
        forall|n: int| queue.absorbed(n) && n > 0 ==> queue.pop_front().absorbed(n - 1),
        queue.queue[0].value is Some ==> queue.pop_front().absorbed(0),
        queue.pop_front().condvars_distinct(),
        forall|i: int|
            0 <= i < queue.pop_front().queue.len() ==> (
            #[trigger] queue.pop_front().queue[i]).asleep(),
{
    let after = queue.pop_front();
    assert forall|i: int| 0 <= i < after.queue.len() implies #[trigger] after.queue[i]
        == queue.queue[i + 1] by {}
    assert forall|n: int| queue.absorbed(n) && n > 0 implies after.absorbed(n - 1) by {
        assert forall|i: int| 0 <= i < after.queue.len() implies ((
        #[trigger] after.queue[i]).value is None <==> i < n - 1) by {
            assert(queue.queue[i + 1].value is None <==> i + 1 < n);
        }
    }
    let n = choose|n: int| queue.absorbed(n);
    if n == 0 {
        assert forall|i: int| 0 <= i < after.queue.len() implies !((
        #[trigger] after.queue[i]).value is None) by {
            assert(queue.queue[i + 1].value is None <==> i + 1 < n);
        }
        assert(after.absorbed(0));
    } else {
        assert(after.absorbed(n - 1));
        assert(queue.queue[0].value is None);
    }
    assert forall|i: int, j: int| 0 <= i < j < after.queue.len() implies (
    #[trigger] after.queue[i]).condvar != (#[trigger] after.queue[j]).condvar by {
        assert(queue.queue[i + 1].condvar != queue.queue[j + 1].condvar);
    }
}

/// Taking the next value leaves one task fewer that has its value.
pub(crate) proof fn lemma_take_value<FS, V>(queue: QueueView<FS, V>, n: int)
    requires
        queue.processing(),
        queue.absorbed(n),
        n < queue.queue.len(),
    ensures
        queue.queue[n].value is Some,
        queue.take_value(n).processing(),
        queue.take_value(n).absorbed(n + 1),
{
    let after = queue.take_value(n);
    assert forall|i: int| 0 <= i < after.queue.len() implies ((
    #[trigger] after.queue[i]).value is None <==> i < n + 1) by {
        assert(queue.queue[i].value is None <==> i < n);
    }
    assert(after.absorbed(n + 1));
    assert forall|i: int, j: int| 0 <= i < j < after.queue.len() implies (
    #[trigger] after.queue[i]).condvar != (#[trigger] after.queue[j]).condvar by {
        assert(queue.queue[i].condvar != queue.queue[j].condvar);
    }
    assert forall|i: int| 0 <= i < after.queue.len() implies (
    #[trigger] after.queue[i]).asleep() by {
        assert(queue.queue[i].asleep());
    }
}

/// A call that has processed its value leaves the queue well formed.
pub(crate) proof fn lemma_finish<FS, V>(queue: QueueView<FS, V>, front_state: FS)
    requires
        queue.processing(),
    ensures
        queue.finish(front_state).wf(),
{
    let n = choose|n: int| queue.absorbed(n);
    let done = QueueView { batch: Batch::Completed, ..queue };
    assert(done.absorbed(n));
    lemma_leave_front(done, front_state, false);
}

/// A call that has panicked leaves the queue well formed.
pub(crate) proof fn lemma_finish_panicking<FS, V>(queue: QueueView<FS, V>, front_state: FS)
    requires
        queue.wf(),
        queue.active(),
    ensures
        queue.finish_panicking(front_state).wf(),
{
    let n = choose|n: int| queue.absorbed(n);
    let done = QueueView {
        queue_poisoned: true,
        batch: if queue.batch is Running {
            Batch::Panicked
        } else {
            queue.batch
        },
        ..queue
    };
    assert(done.absorbed(n));
    lemma_leave_front(done, front_state, true);
}

/// Clearing poison keeps the queue well formed.
pub(crate) proof fn lemma_clear_poison<FS, V>(queue: QueueView<FS, V>)
    requires
        queue.wf(),
    ensures
        queue.clear_poison().wf(),
        queue.active() ==> queue.clear_poison().active(),
        forall|n: int| queue.absorbed(n) ==> queue.clear_poison().absorbed(n),
{
    let n = choose|n: int| queue.absorbed(n);
    assert(queue.clear_poison().absorbed(n));
    if queue.active() && queue.batch is Completed {
        assert(queue.clear_poison().absorbed(0));
    }
}

} // verus!
