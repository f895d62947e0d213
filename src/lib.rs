//! An address-routed mailbox exchange for a fixed set of long-lived agents.
//!
//! Each declared address may be given one bounded FIFO queue, once. Messages
//! reach a queue by a blocking send with a timeout, a non-blocking send, or a
//! delivery delayed on the postmaster's clock; every attempt is counted as a
//! message sent or a send failure.

pub mod builder;
pub mod error;
pub mod laws;
pub mod mailbox;
pub mod message;
pub mod postmaster;

pub use error::PostmasterError;
pub use message::{Address, Message};
