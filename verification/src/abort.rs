//! What is said before the process is aborted.

use vstd::prelude::*;

verus! {

/// Why the process has to be aborted: going on would leave data that the queue refers to, or that
/// the mutex protects, to code that does not know the state that it is in.
#[derive(Debug, Clone, Copy, PartialEq, Eq, Structural)]
pub enum AbortReason {
    /// A call panicked while its task was in the queue.
    NotAtFront,
    /// A mutex that had been unlocked for a while could not be locked again. What the panic said
    /// that prevented it follows.
    RelockFailed,
}

impl AbortReason {
    pub open spec fn text(self) -> Seq<char> {
        match self {
            AbortReason::NotAtFront =>
                "a ContentionQueue::process task unexpectedly panicked before it could reach the front of the queue"@,
            AbortReason::RelockFailed =>
                "QueueHandle::unlocked could not relock its mutex due to to a panic, whose payload is: "@,
        }
    }

    /// The message to print.
    #[must_use]
    pub fn message(self) -> (message: &'static str)
        ensures
            message@ == self.text(),
    {
        match self {
            AbortReason::NotAtFront =>
                "a ContentionQueue::process task unexpectedly panicked before it could reach the front of the queue",
            AbortReason::RelockFailed =>
                "QueueHandle::unlocked could not relock its mutex due to to a panic, whose payload is: ",
        }
    }
}

/// What a panic said: its payload if that is a `&str`, or else if it is a `String`, and otherwise
/// a description of such a payload.
#[must_use]
pub fn payload_text<'a>(as_str: Option<&'a str>, as_string: Option<&'a str>) -> (text: &'a str)
    ensures
        text@ == (match (as_str, as_string) {
            (Some(text), _) => text@,
            (None, Some(text)) => text@,
            (None, None) => "an unknown Box<dyn Any> payload"@,
        }),
{
    if let Some(text) = as_str {
        text
    } else if let Some(text) = as_string {
        text
    } else {
        "an unknown Box<dyn Any> payload"
    }
}

} // verus!
