# Contention queue

A contention queue lets calls from several threads contend for one resource. One call at a time is
at the front of the queue and has exclusive access to the resource; the others wait, in order. The
call at the front processes its own value, and may take the values of the calls behind it and
process them as well, so that work can be merged. A panic at the front poisons the queue and is
passed on to the calls that it concerns.

`src/` is the verified library. It describes a call as a sequence of steps, each taken while a
mutex is held:

- `queue.rs`: the queue, and the steps of a call (`process`, `resume`, `finish`, ...).
- `queue_handle.rs`: what the call at the front can do with the tasks behind it.
- `task.rs`, `task_state.rs`, `queue_state.rs`, `externally_synchronized.rs`: what a queue is made
  of.
- `interface.rs`, `poisoning.rs`, `abort.rs`: what callers choose and what they are told.
- `model.rs`: the states of a queue, and what each step does to them, as mathematics.
- `laws.rs`: what holds of all queues, whatever happens to them: mutual exclusion, first in first
  out, no lost wake-ups, who is told what about whose panic.
- `lemmas.rs`: why each step keeps a queue well formed.

`app/` takes these steps in threads: it locks the mutex, waits on and notifies condition variables,
runs callbacks, and catches their panics.

`tests/` runs calls step by step, and in arbitrary interleavings.
