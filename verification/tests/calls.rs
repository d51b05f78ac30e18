//! Calls that contend for a queue, one step at a time.

use contention_queue::poisoning::{PoisonError, PoisonPanic};
use contention_queue::queue::{Arrival, TaskWaitResult};
use contention_queue::{
    ContentionQueue, MutexInfo, MutexMisuse, PanicOptions, ProcessResult, ProcessStep, QueueHandle,
};

type Queue = ContentionQueue<&'static str, u32>;
type Step = ProcessStep<&'static str, u32, char>;
type Handle = QueueHandle<u8, &'static str>;

const MUTEX: MutexInfo = MutexInfo { address: 0x40, size: 8, poisoned: false };
const POISONED: MutexInfo = MutexInfo { address: 0x40, size: 8, poisoned: true };
const IGNORE: PanicOptions = PanicOptions { unwrap_mutex_poison: false, unwrap_queue_poison: false };

fn process(queue: &mut Queue, condvar: usize, value: u32) -> Step {
    queue.process(MUTEX, condvar, value)
}

fn resume(queue: &mut Queue, condvar: usize) -> Step {
    queue.resume(false, condvar)
}

fn handle() -> Handle {
    QueueHandle::new(1, "guard")
}

fn is_run(step: &Step, expected: u32) -> bool {
    matches!(step, ProcessStep::Run { value, front_state: _ } if *value == expected)
}

fn is_processed_elsewhere(step: &Step, expected: Option<usize>) -> bool {
    matches!(
        step,
        ProcessStep::Return { result: ProcessResult::ProcessedElsewhere, wake } if *wake == expected
    )
}

fn is_processing_panicked(step: &Step, expected: Option<usize>) -> bool {
    matches!(
        step,
        ProcessStep::Return { result: ProcessResult::ProcessingPanicked, wake } if *wake == expected
    )
}

fn is_panic(step: &Step, expected: PoisonPanic) -> bool {
    matches!(step, ProcessStep::Panic { reason, front_state: _ } if *reason == expected)
}

#[test]
fn uncontended_call_runs_at_once() {
    let mut queue = Queue::new("front");
    let step = process(&mut queue, 1, 10);
    assert!(matches!(step, ProcessStep::Run { value: 10, front_state: "front" }));
    let (guard, result, wake) = queue.finish(handle(), "later", 'a');
    assert_eq!(guard, "guard");
    assert!(matches!(result, ProcessResult::Processed('a')));
    assert_eq!(wake, None);
    let step = process(&mut queue, 1, 11);
    assert!(matches!(step, ProcessStep::Run { value: 11, front_state: "later" }));
}

#[test]
fn contended_calls_run_in_order() {
    let mut queue = Queue::new("front");
    assert!(is_run(&process(&mut queue, 1, 10), 10));
    assert!(matches!(process(&mut queue, 2, 20), ProcessStep::Wait));
    assert!(matches!(process(&mut queue, 3, 30), ProcessStep::Wait));
    // Spurious wake-ups change nothing.
    assert!(matches!(resume(&mut queue, 2), ProcessStep::Wait));
    assert!(matches!(resume(&mut queue, 3), ProcessStep::Wait));
    assert_eq!(queue.finish(handle(), "front", 'a').2, Some(2));
    // A call that comes after the front was handed over waits, too.
    assert!(matches!(process(&mut queue, 4, 40), ProcessStep::Wait));
    assert!(matches!(resume(&mut queue, 3), ProcessStep::Wait));
    assert!(is_run(&resume(&mut queue, 2), 20));
    assert_eq!(queue.finish(handle(), "front", 'b').2, Some(3));
    assert!(is_run(&resume(&mut queue, 3), 30));
    assert_eq!(queue.finish(handle(), "front", 'c').2, Some(4));
    assert!(is_run(&resume(&mut queue, 4), 40));
    assert_eq!(queue.finish(handle(), "front", 'd').2, None);
    assert!(is_run(&process(&mut queue, 5, 50), 50));
}

#[test]
fn only_one_call_is_at_the_front() {
    let mut queue = Queue::new("front");
    assert!(is_run(&process(&mut queue, 1, 10), 10));
    for condvar in 2..10 {
        assert!(matches!(process(&mut queue, condvar, 0), ProcessStep::Wait));
        assert!(matches!(resume(&mut queue, condvar), ProcessStep::Wait));
    }
}

#[test]
fn merged_tasks_wake_up_in_order() {
    let mut queue = Queue::new("front");
    assert!(is_run(&process(&mut queue, 1, 10), 10));
    process(&mut queue, 2, 20);
    process(&mut queue, 3, 30);
    process(&mut queue, 4, 40);
    let mut handle = handle();
    assert_eq!(handle.peek(&queue), Some(&20));
    assert_eq!(handle.pop(&mut queue), Some(20));
    assert_eq!(handle.peek(&queue), Some(&30));
    assert_eq!(handle.peek(&queue), Some(&30));
    assert_eq!(handle.pop(&mut queue), Some(30));
    assert_eq!(queue.finish(handle, "front", 'a').2, Some(2));
    assert!(is_processed_elsewhere(&resume(&mut queue, 2), Some(3)));
    assert!(is_processed_elsewhere(&resume(&mut queue, 3), Some(4)));
    assert!(is_run(&resume(&mut queue, 4), 40));
    assert_eq!(queue.finish(QueueHandle::new(1, "guard"), "front", 'b').2, None);
}

#[test]
fn last_merged_task_leaves_the_queue_idle() {
    let mut queue = Queue::new("front");
    process(&mut queue, 1, 10);
    process(&mut queue, 2, 20);
    let mut handle = handle();
    assert_eq!(handle.pop(&mut queue), Some(20));
    assert_eq!(handle.pop(&mut queue), None);
    assert_eq!(handle.peek(&queue), None);
    assert_eq!(queue.finish(handle, "front", 'a').2, Some(2));
    assert!(is_processed_elsewhere(&resume(&mut queue, 2), None));
    assert!(is_run(&process(&mut queue, 3, 30), 30));
}

#[test]
fn every_merged_task_learns_of_a_panic() {
    let mut queue = Queue::new_with_options("front", IGNORE);
    process(&mut queue, 1, 10);
    process(&mut queue, 2, 20);
    process(&mut queue, 3, 30);
    process(&mut queue, 4, 40);
    let mut handle = handle();
    handle.pop(&mut queue);
    handle.pop(&mut queue);
    assert_eq!(queue.finish_panicking("front"), Some(2));
    assert!(is_processing_panicked(&resume(&mut queue, 2), Some(3)));
    assert!(is_processing_panicked(&resume(&mut queue, 3), Some(4)));
    // The poison is ignored, and the next value was not taken.
    assert!(is_run(&resume(&mut queue, 4), 40));
    process(&mut queue, 5, 50);
    let mut handle = QueueHandle::new(1, "guard");
    assert_eq!(handle.pop(&mut queue), Some(50));
    assert_eq!(queue.finish(handle, "front", 'b').2, Some(5));
    // The call that took this value has returned.
    assert!(is_processed_elsewhere(&resume(&mut queue, 5), None));
}

#[test]
fn unwrapped_queue_poison_propagates() {
    let mut queue = Queue::new("front");
    process(&mut queue, 1, 10);
    process(&mut queue, 2, 20);
    process(&mut queue, 3, 30);
    let mut handle = handle();
    handle.pop(&mut queue);
    assert_eq!(queue.finish_panicking("front"), Some(2));
    let step = resume(&mut queue, 2);
    assert!(is_panic(&step, PoisonPanic::QueuePoisoned));
    // The front is not free before the panicking call has left it.
    assert!(matches!(process(&mut queue, 4, 40), ProcessStep::Wait));
    assert_eq!(queue.finish_panicking("front"), Some(3));
    assert!(is_panic(&resume(&mut queue, 3), PoisonPanic::QueuePoisoned));
    assert_eq!(queue.finish_panicking("front"), Some(4));
    assert!(is_panic(&resume(&mut queue, 4), PoisonPanic::QueuePoisoned));
    assert_eq!(queue.finish_panicking("front"), None);
    // Also for a call that does not have to wait.
    assert!(is_panic(&process(&mut queue, 5, 50), PoisonPanic::QueuePoisoned));
    assert_eq!(queue.finish_panicking("front"), None);
    assert!(matches!(queue.is_queue_poisoned(MUTEX), Ok(true)));
    assert!(queue.clear_queue_poison(MUTEX).is_ok());
    assert!(matches!(queue.is_queue_poisoned(MUTEX), Ok(false)));
    assert!(is_run(&process(&mut queue, 6, 60), 60));
}

#[test]
fn cleared_poison_still_reports_the_panic() {
    let mut queue = Queue::new("front");
    process(&mut queue, 1, 10);
    process(&mut queue, 2, 20);
    process(&mut queue, 3, 30);
    let mut handle = handle();
    handle.pop(&mut queue);
    handle.pop(&mut queue);
    queue.finish_panicking("front");
    assert!(queue.clear_queue_poison(MUTEX).is_ok());
    assert!(is_processing_panicked(&resume(&mut queue, 2), Some(3)));
    assert!(is_processing_panicked(&resume(&mut queue, 3), None));
}

#[test]
fn unwrapped_mutex_poison_panics_at_the_front() {
    let mut queue = Queue::new("front");
    let step: Step = queue.process(POISONED, 1, 10);
    assert!(is_panic(&step, PoisonPanic::MutexPoisoned));
    process(&mut queue, 2, 20);
    assert_eq!(queue.finish_panicking("front"), Some(2));
    assert!(queue.clear_queue_poison(MUTEX).is_ok());
    let step: Step = queue.resume(true, 2);
    assert!(is_panic(&step, PoisonPanic::MutexPoisoned));
    assert_eq!(queue.finish_panicking("front"), None);
}

#[test]
fn queue_poison_is_noticed_before_mutex_poison() {
    let mut queue = Queue::new("front");
    process(&mut queue, 1, 10);
    queue.finish_panicking("front");
    let step: Step = queue.process(POISONED, 2, 20);
    assert!(is_panic(&step, PoisonPanic::QueuePoisoned));
}

#[test]
fn mutex_poison_does_not_matter_to_a_task_processed_elsewhere() {
    let mut queue = Queue::new("front");
    process(&mut queue, 1, 10);
    process(&mut queue, 2, 20);
    let mut handle = handle();
    handle.pop(&mut queue);
    queue.finish(handle, "front", 'a');
    let step: Step = queue.resume(true, 2);
    assert!(is_processed_elsewhere(&step, None));
}

#[test]
fn ignored_mutex_poison_is_ignored() {
    let mut queue = Queue::new_with_options("front", IGNORE);
    let step: Step = queue.process(POISONED, 1, 10);
    assert!(is_run(&step, 10));
}

#[test]
fn locking_a_poisoned_mutex() {
    let mut queue = Queue::new("front");
    let poisoned: Result<&'static str, PoisonError<&'static str>> = Err(PoisonError::new("guard"));
    let locked: Result<(&'static str, Step), PoisonPanic> =
        queue.lock_and_process(poisoned, POISONED, 1, 10);
    assert!(matches!(locked, Err(PoisonPanic::LockPoisoned)));
    // The queue has not been touched: the mutex is not even remembered.
    let other = MutexInfo { address: 0x80, size: 8, poisoned: false };
    let locked: Result<(&'static str, Step), PoisonPanic> =
        queue.lock_and_process(Ok("guard"), other, 1, 10);
    assert!(matches!(locked, Ok(("guard", ProcessStep::Run { value: 10, front_state: "front" }))));

    let mut queue = Queue::new_with_options("front", IGNORE);
    let locked: Result<(&'static str, Step), PoisonPanic> =
        queue.lock_and_process(Err(PoisonError::new("guard")), POISONED, 1, 10);
    assert!(matches!(locked, Ok(("guard", ProcessStep::Run { value: 10, front_state: "front" }))));
}

#[test]
fn all_calls_use_the_same_mutex() {
    let mut queue = Queue::new("front");
    assert!(queue.assert_mutex_good(MUTEX).is_ok());
    assert!(queue.assert_mutex_good(MUTEX).is_ok());
    let other = MutexInfo { address: 0x80, size: 8, poisoned: false };
    assert_eq!(queue.assert_mutex_good(other), Err(MutexMisuse::DifferentMutex));
    let step: Step = queue.process(other, 1, 10);
    assert!(matches!(step, ProcessStep::Misused(MutexMisuse::DifferentMutex)));
    assert!(matches!(queue.is_queue_poisoned(other), Err(MutexMisuse::DifferentMutex)));
    assert!(matches!(queue.clear_queue_poison(other), Err(MutexMisuse::DifferentMutex)));
    assert!(is_run(&process(&mut queue, 1, 10), 10));
}

#[test]
fn zero_sized_mutex_is_rejected() {
    let mut queue = Queue::new("front");
    let zst = MutexInfo { address: 0x80, size: 0, poisoned: false };
    assert_eq!(queue.assert_mutex_good(zst), Err(MutexMisuse::ZeroSized));
    // Its address counts all the same.
    assert_eq!(queue.assert_mutex_good(MUTEX), Err(MutexMisuse::DifferentMutex));
}

#[test]
fn a_rejected_call_does_not_clear_poison() {
    let mut queue = Queue::new("front");
    process(&mut queue, 1, 10);
    queue.finish_panicking("front");
    let other = MutexInfo { address: 0x80, size: 8, poisoned: false };
    assert!(queue.clear_queue_poison(other).is_err());
    assert!(matches!(queue.is_queue_poisoned(MUTEX), Ok(true)));
}

#[test]
fn handle_reads_and_clears_queue_poison() {
    let mut queue = Queue::new_with_options("front", IGNORE);
    process(&mut queue, 1, 10);
    queue.finish_panicking("front");
    assert!(is_run(&process(&mut queue, 2, 20), 20));
    let mut handle = handle();
    assert!(handle.is_queue_poisoned(&queue));
    handle.clear_queue_poison(&mut queue);
    assert!(!handle.is_queue_poisoned(&queue));
}

#[test]
fn other_calls_do_not_disturb_an_unlocked_handle() {
    let mut queue = Queue::new("front");
    process(&mut queue, 1, 10);
    process(&mut queue, 2, 20);
    let mut handle = handle();
    assert_eq!(handle.pop(&mut queue), Some(20));
    assert_eq!(handle.unlock(), "guard");
    assert!(matches!(process(&mut queue, 3, 30), ProcessStep::Wait));
    assert!(matches!(resume(&mut queue, 2), ProcessStep::Wait));
    assert!(queue.clear_queue_poison(MUTEX).is_ok());
    handle.relock(Ok("new guard"));
    assert_eq!(handle.peek(&queue), Some(&30));
    assert_eq!(handle.pop(&mut queue), Some(30));
    let (guard, _, wake) = queue.finish(handle, "front", 'a');
    assert_eq!(guard, "new guard");
    assert_eq!(wake, Some(2));
}

#[test]
fn values_are_popped_in_order() {
    let mut queue = Queue::new("front");
    process(&mut queue, 100, 0);
    for value in 1..20u32 {
        process(&mut queue, 100 + value as usize, value);
    }
    let mut handle = handle();
    for value in 1..20u32 {
        assert_eq!(handle.pop(&mut queue), Some(value));
    }
    assert_eq!(handle.pop(&mut queue), None);
}

#[test]
fn front_state_is_handed_on() {
    let mut queue = Queue::new("first");
    process(&mut queue, 1, 10);
    process(&mut queue, 2, 20);
    process(&mut queue, 3, 30);
    process(&mut queue, 4, 40);
    let mut handle = handle();
    handle.pop(&mut queue);
    queue.finish(handle, "second", 'a');
    // A call that only returns leaves the front state as it was.
    assert!(is_processed_elsewhere(&resume(&mut queue, 2), Some(3)));
    let step = resume(&mut queue, 3);
    assert!(matches!(step, ProcessStep::Run { value: 30, front_state: "second" }));
    queue.finish_panicking("third");
    let step = resume(&mut queue, 4);
    assert!(matches!(
        step,
        ProcessStep::Panic { reason: PoisonPanic::QueuePoisoned, front_state: "third" }
    ));
}

#[test]
fn unwrapped_poison_reaches_every_waiting_call() {
    let mut queue = Queue::new("front");
    process(&mut queue, 1, 0);
    for condvar in 2..10 {
        process(&mut queue, condvar, 0);
    }
    let mut handle = handle();
    handle.pop(&mut queue);
    handle.pop(&mut queue);
    assert_eq!(queue.finish_panicking("front"), Some(2));
    for condvar in 2..10 {
        assert!(is_panic(&resume(&mut queue, condvar), PoisonPanic::QueuePoisoned));
        let next = if condvar < 9 { Some(condvar + 1) } else { None };
        assert_eq!(queue.finish_panicking("front"), next);
    }
    assert!(queue.clear_queue_poison(MUTEX).is_ok());
    assert!(is_run(&process(&mut queue, 1, 1), 1));
}

#[test]
fn steps_are_made_of_smaller_ones() {
    let mut queue = Queue::new("front");
    assert_eq!(queue.try_acquire_front_fast(), Some("front"));
    assert_eq!(queue.try_acquire_front_fast(), None);
    let what = queue.try_process_unchecked(TaskWaitResult::Process(10), false);
    assert!(matches!(what, Arrival::Run(10)));
    assert!(is_run(&queue.go_on("front", what), 10));
    queue.push_task(2, 20);
    let step: Step = queue.process_unchecked(false, 3, 30);
    assert!(matches!(step, ProcessStep::Wait));
    assert!(queue.try_wait_until_at_front(2).is_none());
    let mut handle = handle();
    assert_eq!(handle.pop(&mut queue), Some(20));
    assert_eq!(queue.finish(handle, "later", 'a').2, Some(2));
    assert!(queue.try_wait_until_at_front(3).is_none());
    let at_front = queue.try_wait_until_at_front(2);
    assert!(matches!(at_front, Some(("later", TaskWaitResult::ProcessedElsewhere))));
    // The call has the front until it goes on.
    assert_eq!(queue.try_acquire_front_fast(), None);
    let what = queue.try_process_unchecked(TaskWaitResult::ProcessedElsewhere, false);
    assert!(matches!(what, Arrival::ProcessedElsewhere));
    assert!(queue.try_wait_until_at_front(3).is_none());
    assert!(is_processed_elsewhere(&queue.go_on("later", what), Some(3)));
    let at_front = queue.try_wait_until_at_front(3);
    assert!(matches!(at_front, Some(("later", TaskWaitResult::Process(30)))));
    let what = queue.try_process_unchecked(TaskWaitResult::Process(30), true);
    assert!(matches!(what, Arrival::Panic(PoisonPanic::MutexPoisoned)));
    assert!(is_panic(&queue.go_on("later", what), PoisonPanic::MutexPoisoned));
    assert_eq!(queue.finish_panicking("later"), None);
    assert!(matches!(queue.is_queue_poisoned(MUTEX), Ok(true)));
}

#[test]
fn merged_tasks_wake_up_among_other_calls() {
    let mut queue = Queue::new("front");
    process(&mut queue, 1, 10);
    process(&mut queue, 2, 20);
    process(&mut queue, 3, 30);
    let mut handle = handle();
    handle.pop(&mut queue);
    assert_eq!(queue.finish(handle, "front", 'a').2, Some(2));
    assert!(matches!(process(&mut queue, 4, 40), ProcessStep::Wait));
    assert!(matches!(resume(&mut queue, 4), ProcessStep::Wait));
    // The mutex gets poisoned meanwhile, which is no concern of a call that only returns.
    let step: Step = queue.resume(true, 2);
    assert!(is_processed_elsewhere(&step, Some(3)));
    assert!(matches!(process(&mut queue, 2, 21), ProcessStep::Wait));
    assert!(matches!(resume(&mut queue, 2), ProcessStep::Wait));
    assert!(is_run(&resume(&mut queue, 3), 30));
}

#[test]
fn unwrapped_poison_stops_all_processing() {
    let mut queue = Queue::new("front");
    process(&mut queue, 1, 10);
    process(&mut queue, 2, 20);
    process(&mut queue, 3, 30);
    assert_eq!(queue.finish_panicking("front"), Some(2));
    process(&mut queue, 4, 40);
    for (condvar, mutex_poisoned) in [(2, true), (3, false), (4, true)] {
        let step: Step = queue.resume(mutex_poisoned, condvar);
        assert!(is_panic(&step, PoisonPanic::QueuePoisoned));
        queue.finish_panicking("front");
    }
    assert!(is_panic(&process(&mut queue, 5, 50), PoisonPanic::QueuePoisoned));
}
