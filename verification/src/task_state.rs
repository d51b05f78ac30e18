//! The flags by which a waiting call learns that its task has reached the front.

use vstd::prelude::*;

use crate::externally_synchronized::UnsafeMutexCell;

verus! {

const FRONT_BIT: u8 = 0b_01;
const PANIC_BIT: u8 = 0b_10;

/// Whether the call that was processing a task panicked.
#[derive(Debug, Clone, Copy)]
pub struct ProcessingPanicked(pub bool);

/// Where the call that owns a task waits, and the flags that are set when the task is woken.
///
/// The least significant bit of the flags says that the task is at the front of the queue. The
/// second-least significant bit says that the call which may have processed the task panicked.
/// (A poisoned queue may owe its poison to some earlier panic.) A task that has not been woken
/// has neither.
#[derive(Debug)]
pub struct TaskState {
    /// The address of the condition variable on which the call waits. Each call waits on one of
    /// its own.
    condvar: usize,
    state: UnsafeMutexCell<u8>,
}

impl TaskState {
    pub closed spec fn condvar(self) -> usize {
        self.condvar
    }

    pub closed spec fn at_front(self) -> bool {
        self.state@ & FRONT_BIT != 0
    }

    pub closed spec fn panicked(self) -> bool {
        self.state@ & PANIC_BIT != 0
    }

    /// The state of a task that nobody has woken.
    #[must_use]
    pub fn new(condvar: usize) -> (state: Self)
        ensures
            state.condvar() == condvar,
            !state.at_front(),
            !state.panicked(),
    {
        assert(0u8 & FRONT_BIT == 0 && 0u8 & PANIC_BIT == 0) by (bit_vector);
        Self { condvar, state: UnsafeMutexCell::new(0) }
    }

    /// The condition variable on which the task's call waits.
    #[must_use]
    pub fn waits_on(&self) -> (condvar: usize)
        ensures
            condvar == self.condvar(),
    {
        self.condvar
    }

    /// What a call finds each time that it wakes up: `None` if its task is not at the front yet,
    /// so that the call must go on waiting, and otherwise whether the call which may have
    /// processed the task panicked.
    #[must_use]
    pub fn wait_until_at_front(&self) -> (panicked: Option<ProcessingPanicked>)
        ensures
            panicked == (if self.at_front() {
                Some(ProcessingPanicked(self.panicked()))
            } else {
                None
            }),
    {
        let state: u8 = *self.state.get();
        if state & FRONT_BIT != 0 {
            Some(ProcessingPanicked(state & PANIC_BIT != 0))
        } else {
            None
        }
    }

    /// Makes the task the front one. The caller then notifies the condition variable whose
    /// address is returned.
    pub fn wake_front_task(&mut self) -> (condvar: usize)
        ensures
            condvar == old(self).condvar(),
            final(self).condvar() == old(self).condvar(),
            final(self).at_front(),
            final(self).panicked() == old(self).panicked(),
    {
        let ghost before = self.state@;
        let state = self.state.get_mut();
        *state = *state | FRONT_BIT;
        assert((before | FRONT_BIT) & FRONT_BIT != 0) by (bit_vector);
        assert((before | FRONT_BIT) & PANIC_BIT == before & PANIC_BIT) by (bit_vector);
        self.condvar
    }

    /// Makes the task the front one, and tells it that the call which may have processed it
    /// panicked. The caller then notifies the condition variable whose address is returned.
    pub fn wake_front_task_panicking(&mut self) -> (condvar: usize)
        ensures
            condvar == old(self).condvar(),
            final(self).condvar() == old(self).condvar(),
            final(self).at_front(),
            final(self).panicked(),
    {
        let ghost before = self.state@;
        let state = self.state.get_mut();
        *state = *state | (PANIC_BIT | FRONT_BIT);
        assert((before | (PANIC_BIT | FRONT_BIT)) & FRONT_BIT != 0) by (bit_vector);
        assert((before | (PANIC_BIT | FRONT_BIT)) & PANIC_BIT != 0) by (bit_vector);
        self.condvar
    }
}

} // verus!
