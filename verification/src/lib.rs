//! A bounded, retrying job engine for network probes.
//!
//! The engine is a deterministic state machine: the caller supplies the clock
//! reading and the outcome of every task it ran, and the engine answers with the
//! jobs to launch next and the records to hand to the consumer.

pub mod boundary;
pub mod signal;
pub mod ring;
pub mod meta;
pub mod timer;
pub mod schedule;
pub mod worker;
pub mod pool;
pub mod feed;
pub mod socks5;
pub mod noop;
