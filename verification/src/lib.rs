//! An in-memory chat relay: a registry of rooms, the sessions that occupy
//! them, and the fan-out of one message to every session that listens.
//!
//! The registry is plain owned data. A caller that shares it between tasks
//! wraps it in one exclusive lock and holds the lock for each operation.

pub mod channel;
pub mod input;
pub mod registry;
pub mod room;
pub mod service;
