//! The parts of a queue, by what it takes to access them.

use std::collections::VecDeque;

use vstd::prelude::*;

use crate::model::{Batch, TaskView};
use crate::task::ErasedTask;

verus! {

/// Queue state that only the call at the front accesses.
pub struct FrontExclusive<FS> {
    /// The caller's own state.
    pub front_state: FS,
}

/// Queue state that is accessed only while the mutex is held.
pub struct MutexExclusive<V> {
    /// Whether some call has, or has been given, exclusive access to the front state.
    pub front_locked: bool,
    /// Whether a call has panicked since poison was last cleared.
    pub queue_poisoned: bool,
    /// The tasks of the waiting calls: first those whose values the call at the front (or the
    /// call that was there before) has taken, and which have not been woken yet, and then those
    /// which still have their values.
    pub queue: VecDeque<ErasedTask<V>>,
    /// What has become of the call that was the last to process its own value.
    pub batch: Ghost<Batch>,
}

impl<V> MutexExclusive<V> {
    /// The queued tasks.
    pub open spec fn tasks(self) -> Seq<TaskView<V>> {
        self.queue@.map_values(|task: ErasedTask<V>| task@)
    }
}

/// Lends the task at `index`, if the queue is long enough, by `std::collections::VecDeque::get_mut`:
/// the element at that index, index `0` being the front; whatever is written to it replaces that
/// element, and the others stay.
#[verifier::external_body]
pub(crate) fn task_mut<V>(queue: &mut VecDeque<ErasedTask<V>>, index: usize) -> (task: Option<
    &mut ErasedTask<V>,
>)
    ensures
        match task {
            Some(task) => {
                &&& index < old(queue)@.len()
                &&& *task == old(queue)@[index as int]
                &&& final(queue)@ == old(queue)@.update(index as int, *final(task))
            },
            None => index >= old(queue)@.len() && final(queue)@ == old(queue)@,
        },
{
    queue.get_mut(index)
}

} // verus!
