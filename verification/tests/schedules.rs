//! Many calls, whose steps interleave in an arbitrary order.

use contention_queue::{
    ContentionQueue, MutexInfo, PanicOptions, ProcessResult, ProcessStep, QueueHandle,
};

const MUTEX: MutexInfo = MutexInfo { address: 0x40, size: 8, poisoned: false };
const IGNORE: PanicOptions = PanicOptions { unwrap_mutex_poison: false, unwrap_queue_poison: false };

/// A small generator of arbitrary numbers.
struct Numbers(u64);

impl Numbers {
    fn below(&mut self, bound: u64) -> u64 {
        self.0 = self.0.wrapping_mul(6364136223846793005).wrapping_add(1442695040888963407);
        (self.0 >> 33) % bound
    }
}

/// The call at the front.
struct Front {
    sum: u64,
    taken: Vec<u64>,
    handle: QueueHandle<(), ()>,
}

/// Lets `calls` calls with the values `0..calls` go through a queue, in the order that `seed`
/// chooses. A call adds its value, and those that it takes from other calls, to the front state.
/// If `panics`, some calls panic.
fn run(calls: u64, seed: u64, panics: bool) {
    let mut numbers = Numbers(seed);
    let mut queue: ContentionQueue<u64, u64> = ContentionQueue::new_with_options(0, IGNORE);
    let mut started: u64 = 0;
    let mut waiting: Vec<u64> = Vec::new();
    let mut front: Option<Front> = None;
    // Who took the values: whether the call that did has panicked.
    let mut taken_by_panicking: Vec<Option<bool>> = vec![None; calls as usize];
    let mut processed = 0;
    let mut expected = 0;
    let mut left_in_order: Vec<u64> = Vec::new();
    let mut pushed_in_order: Vec<u64> = Vec::new();

    while started < calls || !waiting.is_empty() || front.is_some() {
        let choice = numbers.below(4);
        let step: Option<(u64, ProcessStep<u64, u64, ()>)> = if choice == 0 && started < calls {
            let me = started;
            started += 1;
            let step = queue.process(MUTEX, 1 + me as usize, me);
            if matches!(step, ProcessStep::Wait) {
                waiting.push(me);
                pushed_in_order.push(me);
            }
            Some((me, step))
        } else if choice == 1 && !waiting.is_empty() {
            // Any call may wake up, for whatever reason.
            let index = numbers.below(waiting.len() as u64) as usize;
            let me = waiting[index];
            let step = queue.resume(false, 1 + me as usize);
            if !matches!(step, ProcessStep::Wait) {
                waiting.remove(index);
                left_in_order.push(me);
            }
            Some((me, step))
        } else {
            None
        };
        match step {
            Some((me, ProcessStep::Run { value, front_state })) => {
                assert!(front.is_none(), "two calls are at the front");
                assert_eq!(value, me);
                assert!(taken_by_panicking[me as usize].is_none());
                assert_eq!(front_state, expected);
                processed += 1;
                let handle = QueueHandle::new((), ());
                front = Some(Front { sum: front_state + value, taken: vec![], handle });
            }
            Some((me, ProcessStep::Return { result, .. })) => {
                assert!(front.is_none(), "two calls are at the front");
                match taken_by_panicking[me as usize] {
                    Some(true) => assert!(matches!(result, ProcessResult::ProcessingPanicked)),
                    Some(false) => assert!(matches!(result, ProcessResult::ProcessedElsewhere)),
                    None => panic!("nobody has taken the value"),
                }
            }
            Some((_, ProcessStep::Wait)) => {}
            Some((_, _)) => panic!("poison is ignored, and there is one mutex"),
            None => {
                if let Some(mut at_front) = front.take() {
                    let action = numbers.below(4);
                    if action < 2 {
                        let peeked = at_front.handle.peek(&queue).copied();
                        let popped = at_front.handle.pop(&mut queue);
                        assert_eq!(peeked, popped);
                        if let Some(value) = popped {
                            at_front.sum += value;
                            at_front.taken.push(value);
                            processed += 1;
                        }
                        front = Some(at_front);
                    } else {
                        let panicking = panics && action == 2;
                        for value in &at_front.taken {
                            taken_by_panicking[*value as usize] = Some(panicking);
                        }
                        expected = at_front.sum;
                        let wake = if panicking {
                            queue.finish_panicking(at_front.sum)
                        } else {
                            queue.finish(at_front.handle, at_front.sum, ()).2
                        };
                        match wake {
                            Some(condvar) => assert_eq!(condvar, 1 + waiting[0] as usize),
                            None => assert!(waiting.is_empty()),
                        }
                    }
                }
            }
        }
    }
    assert_eq!(processed, calls);
    assert_eq!(expected, calls * (calls - 1) / 2);
    assert_eq!(left_in_order, pushed_in_order);
}

#[test]
fn every_value_is_processed_once() {
    for seed in 0..50 {
        run(200, seed, false);
    }
}

#[test]
fn every_taken_value_is_reported_truly() {
    for seed in 0..50 {
        run(200, seed, true);
    }
}
