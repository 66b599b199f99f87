//! Ingestion of signed social-protocol events into durable records and
//! derived in-memory state: a relationship graph, a desired-event queue,
//! relay bookkeeping and profile-metadata updates.

pub mod db;
pub mod error;
pub mod events;
pub mod laws;
pub mod outside;
pub mod process;
pub mod runtime;
