//! Tasks that contend for one resource, queued so that a single call at a time processes them.

pub mod abort;
pub mod externally_synchronized;
pub mod interface;
pub mod laws;
pub(crate) mod lemmas;
pub mod model;
pub mod poisoning;
pub mod queue;
pub mod queue_handle;
pub mod queue_state;
pub mod step_laws;
pub mod task;
pub mod task_state;

pub use crate::interface::{MutexInfo, MutexMisuse, PanicOptions, ProcessResult, ProcessStep};
pub use crate::queue::ContentionQueue;
pub use crate::queue_handle::QueueHandle;
