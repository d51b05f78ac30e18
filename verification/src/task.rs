//! Tasks: a call's value, together with the state by which the call is woken.

use vstd::prelude::*;

use crate::model::TaskView;
use crate::task_state::TaskState;

verus! {

/// One task. Its value is `None` once a call other than the task's own has taken it.
#[derive(Debug)]
pub struct Task<V> {
    pub state: TaskState,
    pub value: Option<V>,
}

impl<V> View for Task<V> {
    type V = TaskView<V>;

    open spec fn view(&self) -> TaskView<V> {
        TaskView {
            condvar: self.state.condvar(),
            at_front: self.state.at_front(),
            panicked: self.state.panicked(),
            value: self.value,
        }
    }
}

/// A task as the queue stores it.
pub struct ErasedTask<V> {
    task: Task<V>,
}

impl<V> View for ErasedTask<V> {
    type V = TaskView<V>;

    closed spec fn view(&self) -> TaskView<V> {
        self.task@
    }
}

impl<V> ErasedTask<V> {
    #[must_use]
    pub fn new(task: Task<V>) -> (erased: Self)
        ensures
            erased@ == task@,
    {
        Self { task }
    }

    #[must_use]
    pub fn into_inner(self) -> (task: Task<V>)
        ensures
            task@ == self@,
    {
        self.task
    }

    #[must_use]
    pub fn inner(&self) -> (task: &Task<V>)
        ensures
            task@ == self@,
    {
        &self.task
    }

    /// Lends the task's state, for waking the task.
    #[must_use]
    pub fn state_mut(&mut self) -> (state: &mut TaskState)
        ensures
            state.condvar() == old(self)@.condvar,
            state.at_front() == old(self)@.at_front,
            state.panicked() == old(self)@.panicked,
            final(self)@ == (TaskView {
                condvar: final(state).condvar(),
                at_front: final(state).at_front(),
                panicked: final(state).panicked(),
                value: old(self)@.value,
            }),
    {
        &mut self.task.state
    }

    /// Takes the task's value, and leaves none.
    pub fn take(&mut self) -> (value: Option<V>)
        ensures
            value == old(self)@.value,
            final(self)@ == (TaskView { value: None, ..old(self)@ }),
    {
        self.task.value.take()
    }
}

} // verus!
