//! What a caller of the queue chooses, and what it is told.

use vstd::prelude::*;

use crate::poisoning::PoisonPanic;

verus! {

/// Whether poison should be unwrapped, thereby propagating panics, or ignored, which risks the
/// observation of structures whose logical invariants have been violated.
#[derive(Debug, Clone, Copy)]
pub struct PanicOptions {
    /// If a thread panics while holding a mutex, other threads are informed of that panic
    /// via mutex poisoning.
    ///
    /// Processing a value with `unwrap_mutex_poison = true` will unwrap mutex poison errors, and
    /// using `unwrap_mutex_poison = false` will silently ignore any poison.
    ///
    /// # Default
    /// Defaults to `true`.
    pub unwrap_mutex_poison: bool,
    /// If a task in a [`ContentionQueue`] panics, following tasks are informed of the panic
    /// via queue poisoning.
    ///
    /// Processing a value with `unwrap_queue_poison = true` will panic if a preceding task
    /// panicked since the last time the queue's poison was cleared, and using
    /// `unwrap_queue_poison = false` will either:
    /// - return [`ProcessResult::ProcessingPanicked`], if the value was being processed by a
    ///   different task which panicked, or
    /// - silently ignore the panic and process the value, if the value had not begun to be
    ///   processed elsewhere yet.
    ///
    /// # Default
    /// Defaults to `true`.
    ///
    /// [`ContentionQueue`]: crate::queue::ContentionQueue
    pub unwrap_queue_poison: bool,
}

impl Default for PanicOptions {
    fn default() -> (options: Self)
        ensures
            options.unwrap_mutex_poison,
            options.unwrap_queue_poison,
    {
        Self { unwrap_mutex_poison: true, unwrap_queue_poison: true }
    }
}

/// Information about how a task was processed (if at all), possibly including the return value of
/// the callback that processed it.
#[derive(Debug, Clone, Copy)]
pub enum ProcessResult<R> {
    /// This call processed the task.
    Processed(R),
    /// The task has been processed by a different call.
    ProcessedElsewhere,
    /// The task was being processed by a different call, but that call panicked. It is unknown to
    /// what extent the task has been processed.
    ProcessingPanicked,
}

/// What a call knows about the mutex that it was given.
#[derive(Debug, Clone, Copy)]
pub struct MutexInfo {
    /// Where the mutex is in memory.
    pub address: usize,
    /// How many bytes the mutex takes up.
    pub size: usize,
    /// Whether the mutex is poisoned.
    pub poisoned: bool,
}

/// Why a mutex cannot be used with a queue.
#[derive(Debug, Clone, Copy, PartialEq, Eq, Structural)]
pub enum MutexMisuse {
    /// An earlier call on the same queue used a mutex at another address.
    DifferentMutex,
    /// The mutex takes up no memory, so that its address does not identify it.
    ZeroSized,
}

impl MutexMisuse {
    pub open spec fn text(self) -> Seq<char> {
        match self {
            MutexMisuse::DifferentMutex =>
                "All calls to `ContentionQueue::process` on the same queue must use the same `Mutex`"@,
            MutexMisuse::ZeroSized => "`std::sync::Mutex` should not be a ZST"@,
        }
    }

    /// The message to panic with.
    #[must_use]
    pub fn message(self) -> (message: &'static str)
        ensures
            message@ == self.text(),
    {
        match self {
            MutexMisuse::DifferentMutex =>
                "All calls to `ContentionQueue::process` on the same queue must use the same `Mutex`",
            MutexMisuse::ZeroSized => "`std::sync::Mutex` should not be a ZST",
        }
    }
}

/// What a call does next.
#[derive(Debug)]
pub enum ProcessStep<FS, V, R> {
    /// Panic: the mutex cannot be used with this queue. The queue has done no more than to
    /// remember its first mutex.
    Misused(MutexMisuse),
    /// Release the mutex and wait on the call's condition variable. Once that has been notified
    /// and the mutex is held again, resume the call.
    Wait,
    /// Process the value, with exclusive access to the front state, and then finish the call.
    Run { value: V, front_state: FS },
    /// Panic on account of poison, and finish the call as one that has panicked.
    Panic { reason: PoisonPanic, front_state: FS },
    /// Notify the condition variable at the address `wake`, if there is one, and return `result`.
    Return { result: ProcessResult<R>, wake: Option<usize> },
}

} // verus!
