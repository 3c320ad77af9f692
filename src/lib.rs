//! Request dispatch and cooperative task scheduling for a kernel-bypass
//! key-value server: packet classification, response assembly, a
//! round-robin run-queue with cross-core work stealing, and the per-core
//! dispatch decisions that drive them.

pub mod cycles;
pub mod packet;
pub mod classifier;
pub mod response;
pub mod task;
pub mod sched;
pub mod dispatch;
pub mod depth;
pub mod context;
pub mod client;
