//! Scheduling core of a single-processor kernel.
//!
//! The crate owns the life of every thread, decides which thread runs on the
//! processor at any instant, and wakes sleeping threads when their time has
//! come. Its parts, leaves first:
//!
//! - [`timer`]: a deadline-ordered queue of one-shot callbacks;
//! - [`scheduler`]: the interface of a scheduling policy, and round-robin;
//! - [`structs`]: threads and their states;
//! - [`thread_pool`]: a bounded registry of threads under a policy;
//! - [`processor`]: the idle thread, the pool and the running thread;
//! - [`kernel`]: the context that binds processor and timer, and the calls
//!   the rest of a kernel makes on it.
//!
//! Nothing here touches the machine. A caller looks programs up, reads the
//! clock, takes the timer interrupt and switches contexts; it hands what it
//! found to this crate and carries out what this crate decides. Every type
//! comes with a mathematical model, every operation with a contract over
//! that model, and the contracts are proved.

use vstd::prelude::*;

pub mod kernel;
pub mod processor;
pub mod scheduler;
pub mod structs;
pub mod thread_pool;
pub mod timer;

verus! {

/// Identifier of a thread, assigned by the pool that registers it.
pub type Tid = usize;

/// Code a thread leaves behind when it exits.
pub type ExitCode = usize;

} // verus!
