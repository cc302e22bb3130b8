//! Tracking of external-game-service player identities per chat channel.
//!
//! The library keeps a persisted watch list of `Monitor` rows, resolves
//! identities against the remote read-only API, and reconciles the two:
//! bounded-concurrency fan-out of fetches, idempotent persistence with
//! duplicate detection, and partial-failure aggregation into summaries.

pub mod client;
pub mod controller;
pub mod error;
pub mod pipeline;
pub mod store;
