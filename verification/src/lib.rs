//! Relays newly published competition announcements to a chat channel,
//! exactly once per announcement, in the face of polling and of transient
//! delivery failures.
//!
//! The crate holds the change-detection and reliable-delivery pipeline:
//! a dedup tracker, a retry queue with exponential backoff and a persistent
//! overflow store, and the decision logic of the polling loop. All I/O —
//! fetching, sending, reading and writing the store file — stays outside,
//! in the surrounding application; the functions here compute, from plain
//! values, what that application must do next.

pub mod config;
pub mod models;
pub mod polling;
pub mod queue;
pub mod render;
pub mod text;
pub mod tracker;
