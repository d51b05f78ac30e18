//! The parts that calls are made of.

use std::sync::Mutex;

use contention_queue::abort::{payload_text, AbortReason};
use contention_queue::externally_synchronized::{NotShared, UnsafeMutexCell};
use contention_queue::poisoning::{PoisonError, PoisonPanic, UnwrapPoison};
use contention_queue::task::{ErasedTask, Task};
use contention_queue::task_state::{ProcessingPanicked, TaskState};
use contention_queue::{MutexMisuse, PanicOptions, QueueHandle};

#[test]
fn cells_lend_their_contents() {
    let mut cell = UnsafeMutexCell::new(3);
    *cell.get_mut() += 1;
    assert_eq!(*cell.get(), 4);
    let mut wrapper = NotShared::new(5);
    *wrapper.get_mut() += 1;
    assert_eq!(*wrapper.get_mut(), 6);
}

#[test]
fn poison_is_unwrapped_by_default() {
    let options = PanicOptions::default();
    assert!(options.unwrap_mutex_poison);
    assert!(options.unwrap_queue_poison);
}

#[test]
fn unwrapping_poison() {
    let fine: Result<u8, PoisonError<u8>> = Ok(1);
    assert_eq!(fine.unwrap_poison(true), Ok(1));
    let fine: Result<u8, PoisonError<u8>> = Ok(1);
    assert_eq!(fine.unwrap_poison(false), Ok(1));
    let poisoned: Result<u8, PoisonError<u8>> = Err(PoisonError::new(2));
    assert_eq!(poisoned.unwrap_poison(true), Err(PoisonPanic::LockPoisoned));
    let poisoned: Result<u8, PoisonError<u8>> = Err(PoisonError::new(2));
    assert_eq!(poisoned.unwrap_poison(false), Ok(2));
}

#[test]
fn task_state_waits_until_woken() {
    let mut state = TaskState::new(7);
    assert_eq!(state.waits_on(), 7);
    assert!(state.wait_until_at_front().is_none());
    assert_eq!(state.wake_front_task(), 7);
    assert!(matches!(state.wait_until_at_front(), Some(ProcessingPanicked(false))));
    assert_eq!(state.wake_front_task_panicking(), 7);
    assert!(matches!(state.wait_until_at_front(), Some(ProcessingPanicked(true))));
    assert_eq!(state.wake_front_task(), 7);
    assert!(matches!(state.wait_until_at_front(), Some(ProcessingPanicked(true))));
}

#[test]
fn task_value_is_taken_once() {
    let mut erased = ErasedTask::new(Task { state: TaskState::new(7), value: Some("value") });
    assert_eq!(erased.inner().value, Some("value"));
    assert_eq!(erased.take(), Some("value"));
    assert_eq!(erased.take(), None);
    assert_eq!(erased.state_mut().wake_front_task(), 7);
    let task = erased.into_inner();
    assert_eq!(task.value, None);
    assert!(task.state.wait_until_at_front().is_some());
}

#[test]
fn handle_lends_the_mutex_state() {
    let mut handle = QueueHandle::new("mutex", 5);
    assert_eq!(*handle.mutex_state(), 5);
    *handle.mutex_state_mut() += 1;
    assert_eq!(*handle.mutex_state(), 6);
    assert_eq!(*handle.mutex_mut(), "mutex");
    assert_eq!(handle.into_guard(), 6);
}

#[test]
fn unlocked_locks_the_same_mutex_again() {
    let mut handle = QueueHandle::new("mutex", 5);
    let output = handle.unlocked(
        |guard| guard + 100,
        |token| {
            assert_eq!(*token, 105);
            "output"
        },
        |mutex, token| {
            assert_eq!(mutex, "mutex");
            assert_eq!(token, 105);
            Ok(6)
        },
    );
    assert_eq!(output, "output");
    assert_eq!(*handle.mutex_state(), 6);
    let output = handle.unlocked(|_| (), |_| 1, |_, ()| Err(PoisonError::new(7)));
    assert_eq!(output, 1);
    assert_eq!(*handle.mutex_state(), 7);
}

#[test]
fn callback_runs_while_the_mutex_is_unlocked() {
    let mutex = Mutex::new(5);
    let mut handle = QueueHandle::new(&mutex, mutex.lock().unwrap());
    **handle.mutex_state_mut() += 1;
    assert!(mutex.try_lock().is_err());
    let seen = handle.unlocked(
        |guard| drop(guard),
        |_| {
            let mut guard = mutex.try_lock().unwrap();
            *guard += 10;
            *guard
        },
        |mutex, ()| mutex.lock().map_err(|error| PoisonError::new(error.into_inner())),
    );
    assert_eq!(seen, 16);
    assert_eq!(**handle.mutex_state(), 16);
    assert!(mutex.try_lock().is_err());
    drop(handle.into_guard());
    assert!(mutex.try_lock().is_ok());
}

#[test]
fn messages() {
    assert_eq!(PoisonPanic::LockPoisoned.message(), "poisoned std::sync::Mutex");
    assert_eq!(PoisonPanic::QueuePoisoned.message(), "a ContentionQueue was poisoned");
    assert_eq!(
        PoisonPanic::MutexPoisoned.message(),
        "the Mutex used for a ContentionQueue was poisoned"
    );
    assert_eq!(
        MutexMisuse::DifferentMutex.message(),
        "All calls to `ContentionQueue::process` on the same queue must use the same `Mutex`"
    );
    assert_eq!(MutexMisuse::ZeroSized.message(), "`std::sync::Mutex` should not be a ZST");
    assert_eq!(
        AbortReason::NotAtFront.message(),
        "a ContentionQueue::process task unexpectedly panicked before it could reach the front of \
         the queue"
    );
    assert_eq!(
        AbortReason::RelockFailed.message(),
        "QueueHandle::unlocked could not relock its mutex due to to a panic, whose payload is: "
    );
}

#[test]
fn panic_payloads() {
    assert_eq!(payload_text(Some("a"), None), "a");
    assert_eq!(payload_text(Some("a"), Some("b")), "a");
    assert_eq!(payload_text(None, Some("b")), "b");
    assert_eq!(payload_text(None, None), "an unknown Box<dyn Any> payload");
}
