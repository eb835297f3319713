//! Kernel-side futex engine and per-thread robust-list registry.
//!
//! The wait queues and the registry are plain state that the caller owns and
//! passes in; suspending and resuming tasks, reading user memory and reading
//! the clock stay with the caller, which hands their results in as values.

pub mod errors;
pub mod key;
pub mod model;
pub mod lemmas;
pub mod queue;
pub mod time;
pub mod waitwake;
pub mod robust;
pub mod futex;
pub mod path;
pub mod pidfd;
pub mod guarantees;
