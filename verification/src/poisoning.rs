//! Poison: the mark that a panic leaves on a mutex or on the queue, and what it does to a call.

use vstd::prelude::*;

verus! {

/// What locking a mutex gives when the mutex is poisoned: the guard, inside an error.
#[derive(Debug)]
pub struct PoisonError<G> {
    guard: G,
}

impl<G> PoisonError<G> {
    pub closed spec fn guard(self) -> G {
        self.guard
    }

    pub fn new(guard: G) -> (error: Self)
        ensures
            error.guard() == guard,
    {
        Self { guard }
    }

    /// Ignores the poison and gives the guard.
    pub fn into_inner(self) -> (guard: G)
        ensures
            guard == self.guard(),
    {
        self.guard
    }
}

/// The guard that locking a mutex gave, poisoned or not.
pub open spec fn locked_guard<G>(lock: Result<G, PoisonError<G>>) -> G {
    match lock {
        Ok(guard) => guard,
        Err(error) => error.guard(),
    }
}

/// Poison on account of which a call panics.
#[derive(Debug, Clone, Copy, PartialEq, Eq, Structural)]
pub enum PoisonPanic {
    /// The mutex was poisoned when it was locked, before the call had anything to do with the
    /// queue.
    LockPoisoned,
    /// The queue was poisoned when the call reached the front.
    QueuePoisoned,
    /// The mutex was poisoned when the call was about to process its own value.
    MutexPoisoned,
}

impl PoisonPanic {
    pub open spec fn text(self) -> Seq<char> {
        match self {
            PoisonPanic::LockPoisoned => "poisoned std::sync::Mutex"@,
            PoisonPanic::QueuePoisoned => "a ContentionQueue was poisoned"@,
            PoisonPanic::MutexPoisoned => "the Mutex used for a ContentionQueue was poisoned"@,
        }
    }

    /// The message to panic with.
    #[must_use]
    pub fn message(self) -> (message: &'static str)
        ensures
            message@ == self.text(),
    {
        match self {
            PoisonPanic::LockPoisoned => "poisoned std::sync::Mutex",
            PoisonPanic::QueuePoisoned => "a ContentionQueue was poisoned",
            PoisonPanic::MutexPoisoned => "the Mutex used for a ContentionQueue was poisoned",
        }
    }
}

/// Taking the guard out of the result of locking a mutex.
pub trait UnwrapPoison<G>: Sized {
    fn unwrap_poison(self, unwrap_poison: bool) -> Result<G, PoisonPanic>;
}

impl<G> UnwrapPoison<G> for Result<G, PoisonError<G>> {
    /// Gives the guard, unless the mutex is poisoned and `unwrap_poison` asks to panic then.
    fn unwrap_poison(self, unwrap_poison: bool) -> (guard: Result<G, PoisonPanic>)
        ensures
            guard == (if unwrap_poison && self is Err {
                Err::<G, PoisonPanic>(PoisonPanic::LockPoisoned)
            } else {
                Ok::<G, PoisonPanic>(locked_guard(self))
            }),
    {
        match self {
            Ok(guard) => Ok(guard),
            Err(error) => if unwrap_poison {
                Err(PoisonPanic::LockPoisoned)
            } else {
                Ok(error.into_inner())
            },
        }
    }
}

} // verus!
