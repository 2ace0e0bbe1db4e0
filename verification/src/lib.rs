//! Relay supervisor for local notification events.
//!
//! The library moves notification events from a local source to a remote
//! display sink: each event is filtered against a list of skipped
//! applications, given a display timeout (fixed, or derived from its text
//! length and clamped to a configured range), and queued in submission order
//! until the sink transmits it.  The two loops that drive source and sink
//! restart independently; the queue outlives both.

pub mod codec;
pub mod config;
pub mod event;
pub mod numeric;
pub mod queue;
pub mod settings;
pub mod supervisor;
pub mod timeout;
