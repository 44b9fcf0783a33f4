//! Fault-isolation and live-update runtime for replaceable kernel domains.
//!
//! A domain is reached only through a proxy, which admits concurrent
//! callers, contains faults of recoverable calls, and swaps the domain
//! implementation at run time without tearing a call in progress.
//! [`proxy::DomainProxy`] admits callers by per-processor counters and a
//! lock; [`rcu::RcuProxy`] by read-copy-update. Both are written as steps
//! that concurrent callers and one swap interleave; [`laws`] states what
//! holds in every interleaving.
pub mod counter;
pub mod error;
pub mod state;
pub mod proxy;
pub mod laws;
pub mod rvec;
pub mod time;
pub mod frame;
pub mod interface;
pub mod rcu;
pub mod slot;
