//! A fixed-size worker pool, modelled as a verified state machine.
//!
//! The pool owns a bounded set of workers and a single FIFO dispatch
//! queue. Jobs are submitted fire-and-forget; each queued message is
//! claimed by exactly one worker. Shutdown enqueues one terminate
//! message per worker and then waits until every worker has stopped.

pub mod laws;
pub mod message;
pub mod pool;
pub mod request;
pub mod worker;

pub use pool::ThreadPool;
pub use request::RequestKind;

pub use message::Message;
pub use worker::Worker;
pub use worker::WorkerStatus;
