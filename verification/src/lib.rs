//! Timers for asynchronous tasks: a deadline-ordered store of wake requests,
//! the single-shot timer that tasks poll, the driver cycle that fires what is
//! due, and adapters that put a time limit on a task or on a stream's items.
//!
//! Instants and durations are counts of clock ticks (`u64`); the caller reads
//! the clock and hands the reading in.

pub mod delay;
pub mod ext;
pub mod global;
pub mod inbox;
pub mod store;

pub use crate::delay::{Delay, Polled};
pub use crate::ext::{Timeout, TimeoutError, TimeoutStream};
pub use crate::global::{Driver, HelperThread};
pub use crate::inbox::Inbox;
pub use crate::store::DeadlineStore;
