//! The handle by which the call at the front reaches the tasks that wait behind it.

use vstd::prelude::*;

use crate::externally_synchronized::NotShared;
use crate::model::QueueView;
use crate::poisoning::PoisonError;
use crate::queue::ContentionQueue;
use crate::queue_state::task_mut;

verus! {

/// Access, for the call at the front, to the mutex-protected state and to the following tasks of
/// a [`ContentionQueue`].
///
/// `L` is how the call refers to the mutex, and `M` is the guard through which the mutex lends
/// what it protects.
pub struct QueueHandle<L, M> {
    mutex: NotShared<L>,
    /// The guard of the mutex, except while the mutex is unlocked.
    guard: Option<M>,
    /// The index of the next task to take the value of: the tasks before it have lost theirs, and
    /// those from it on have theirs.
    next_idx: usize,
}

impl<L, M> QueueHandle<L, M> {
    pub closed spec fn mutex(self) -> L {
        self.mutex@
    }

    pub closed spec fn guard(self) -> Option<M> {
        self.guard
    }

    pub closed spec fn next_idx(self) -> int {
        self.next_idx as int
    }

    /// The handle is the one of the call at the front of `queue`, and the mutex is locked.
    pub open spec fn serves<FS, V>(self, queue: QueueView<FS, V>) -> bool {
        &&& queue.processing()
        &&& queue.absorbed(self.next_idx())
        &&& self.guard() is Some
    }

    /// The handle of a call that is about to process its value, while every queued task has its
    /// value.
    #[must_use]
    pub fn new(mutex: L, guard: M) -> (handle: Self)
        ensures
            handle.mutex() == mutex,
            handle.guard() == Some(guard),
            handle.next_idx() == 0,
    {
        Self { mutex: NotShared::new(mutex), guard: Some(guard), next_idx: 0 }
    }

    /// Gives the guard back.
    #[must_use]
    pub fn into_guard(self) -> (guard: M)
        requires
            self.guard() is Some,
        ensures
            Some(guard) == self.guard(),
    {
        self.guard.unwrap()
    }

    /// Peek at the second-place position of the queue (noting that the task with access to this
    /// handle is considered to still be at the front of the queue).
    #[must_use]
    pub fn peek<'s, FS, V>(&self, queue: &'s ContentionQueue<FS, V>) -> (value: Option<&'s V>)
        requires
            self.serves(queue@),
        ensures
            match value {
                Some(value) => queue@.next_value(self.next_idx()) == Some(*value),
                None => queue@.next_value(self.next_idx()) is None,
            },
            value is Some <==> self.next_idx() < queue@.queue.len(),
            value matches Some(value) ==> queue@.queue[self.next_idx()].value == Some(*value),
    {
        let mutex_exclusive = queue.mutex_exclusive();
        if self.next_idx < mutex_exclusive.queue.len() {
            let next_task = &mutex_exclusive.queue[self.next_idx];
            assert(next_task@ == queue@.queue[self.next_idx as int]);
            next_task.inner().value.as_ref()
        } else {
            None
        }
    }

    /// Pop the next task value off the queue. Semantically (that is, ignoring implementation
    /// details), it is popped directly from second place; the popped task is never at the front
    /// of the queue, and therefore its call does not process it.
    pub fn pop<FS, V>(&mut self, queue: &mut ContentionQueue<FS, V>) -> (value: Option<V>)
        requires
            old(self).serves(old(queue)@),
        ensures
            final(self).serves(final(queue)@),
            final(self).mutex() == old(self).mutex(),
            final(self).guard() == old(self).guard(),
            value == old(queue)@.next_value(old(self).next_idx()),
            value is Some <==> old(self).next_idx() < old(queue)@.queue.len(),
            value is Some ==> {
                &&& old(queue)@.queue[old(self).next_idx()].value == value
                &&& final(queue)@.queue[old(self).next_idx()].value is None
                &&& final(queue)@ == old(queue)@.take_value(old(self).next_idx())
                &&& final(self).next_idx() == old(self).next_idx() + 1
            },
            value is None ==> {
                &&& final(queue)@ == old(queue)@
                &&& final(self).next_idx() == old(self).next_idx()
            },
    {
        let ghost n = self.next_idx as int;
        proof {
            if n < queue@.queue.len() {
                crate::lemmas::lemma_take_value(queue@, n);
            }
        }
        let mutex_exclusive = queue.mutex_exclusive_mut();
        assert(mutex_exclusive.queue.len() == mutex_exclusive.queue@.len());
        match task_mut(&mut mutex_exclusive.queue, self.next_idx) {
            Some(next_task) => {
                let value = next_task.take();
                self.next_idx = self.next_idx + 1;
                assert(queue@.queue =~= old(queue)@.take_value(n).queue);
                Some(value.unwrap())
            },
            None => {
                assert(queue@.queue =~= old(queue)@.queue);
                None
            },
        }
    }

    /// Access the mutex-protected state.
    #[must_use]
    pub fn mutex_state(&self) -> (state: &M)
        requires
            self.guard() is Some,
        ensures
            self.guard() == Some(*state),
    {
        self.guard.as_ref().unwrap()
    }

    /// Mutably access the mutex-protected state.
    #[must_use]
    pub fn mutex_state_mut(&mut self) -> (state: &mut M)
        requires
            old(self).guard() is Some,
        ensures
            old(self).guard() == Some(*state),
            final(self).guard() == Some(*final(state)),
            final(self).mutex() == old(self).mutex(),
            final(self).next_idx() == old(self).next_idx(),
    {
        self.guard.as_mut().unwrap()
    }

    /// Gives up the guard, whose owner then unlocks the mutex by dropping it.
    pub fn unlock(&mut self) -> (guard: M)
        requires
            old(self).guard() is Some,
        ensures
            old(self).guard() == Some(guard),
            final(self).guard() is None,
            final(self).mutex() == old(self).mutex(),
            final(self).next_idx() == old(self).next_idx(),
    {
        self.guard.take().unwrap()
    }

    /// How the call refers to the mutex, for locking it again.
    #[must_use]
    pub fn mutex_mut(&mut self) -> (mutex: &mut L)
        ensures
            *mutex == old(self).mutex(),
            final(self).mutex() == *final(mutex),
            final(self).guard() == old(self).guard(),
            final(self).next_idx() == old(self).next_idx(),
    {
        self.mutex.get_mut()
    }

    /// Takes in the guard that locking the mutex again gave. Poison is ignored.
    pub fn relock(&mut self, lock: Result<M, PoisonError<M>>)
        ensures
            final(self).guard() == Some(crate::poisoning::locked_guard(lock)),
            final(self).mutex() == old(self).mutex(),
            final(self).next_idx() == old(self).next_idx(),
    {
        let guard = match lock {
            Ok(guard) => guard,
            Err(error) => error.into_inner(),
        };
        self.guard = Some(guard);
    }

    /// Temporarily unlock the mutex, execute the provided callback, and then re-lock the mutex.
    ///
    /// `release` unlocks the mutex by giving up its guard, and yields a token that the mutex is
    /// unlocked. The callback `with` runs on that token, and `lock` uses it up. There is no other
    /// way to come by one, so that the mutex is unlocked before the callback runs, and locked only
    /// after that.
    ///
    /// Poison errors are ignored.
    pub fn unlocked<T, D, U, K, R>(&mut self, release: D, with: U, lock: K) -> (output: R) where
        D: FnOnce(M) -> T,
        U: FnOnce(&T) -> R,
        K: FnOnce(L, T) -> Result<M, PoisonError<M>>,
        L: Copy,

        requires
            old(self).guard() is Some,
            release.requires((old(self).guard()->0,)),
            forall|token: T| #[trigger]
                release.ensures((old(self).guard()->0,), token) ==> with.requires((&token,)),
            forall|token: T| #[trigger]
                release.ensures((old(self).guard()->0,), token) ==> lock.requires(
                    (old(self).mutex(), token),
                ),
        ensures
            exists|token: T, locked: Result<M, PoisonError<M>>|
                #![trigger lock.ensures((old(self).mutex(), token), locked)]
                {
                    &&& release.ensures((old(self).guard()->0,), token)
                    &&& with.ensures((&token,), output)
                    &&& lock.ensures((old(self).mutex(), token), locked)
                    &&& final(self).guard() == Some(crate::poisoning::locked_guard(locked))
                },
            final(self).mutex() == old(self).mutex(),
            final(self).next_idx() == old(self).next_idx(),
    {
        let guard = self.unlock();
        let token = release(guard);
        let output = with(&token);
        let locked = lock(*self.mutex_mut(), token);
        self.relock(locked);
        output
    }

    /// Whether the queue itself (not the associated mutex) is poisoned.
    ///
    /// See [`PanicOptions`] for more information.
    ///
    /// [`PanicOptions`]: crate::interface::PanicOptions
    #[must_use]
    pub fn is_queue_poisoned<FS, V>(&self, queue: &ContentionQueue<FS, V>) -> (poisoned: bool)
        ensures
            poisoned == queue@.queue_poisoned,
    {
        queue.mutex_exclusive().queue_poisoned
    }

    /// Clear the poison of the queue itself (not the associated mutex).
    ///
    /// See [`PanicOptions`] for more information.
    ///
    /// [`PanicOptions`]: crate::interface::PanicOptions
    pub fn clear_queue_poison<FS, V>(&mut self, queue: &mut ContentionQueue<FS, V>)
        requires
            old(self).serves(old(queue)@),
        ensures
            *final(self) == *old(self),
            final(queue)@ == old(queue)@.clear_poison(),
            !final(queue)@.queue_poisoned,
            final(self).serves(final(queue)@),
    {
        proof {
            crate::lemmas::lemma_clear_poison(queue@);
        }
        queue.mutex_exclusive_mut().queue_poisoned = false;
    }
}

} // verus!
