//! Core of a tenant-scoped outbound mail relay.
//!
//! Clients register a domain and receive a bearer token scoped to it; messages
//! submitted with that token are either queued for asynchronous delivery with
//! unbounded retry or sent synchronously. Delivered messages are recorded in
//! an append-only archive whose size is bounded by a retention ceiling.
//!
//! This crate holds the verified core: the domain directory, the
//! authorization gate, the delivery queue state machine, the archive and its
//! culling policy, and the transport credential cell. The surrounding
//! process (HTTP routing, the SQLite mirror of this state, the SMTP
//! connection, the background loops' scheduling) drives this core through its
//! public operations.

use vstd::prelude::*;

pub mod addr;
pub mod archive;
pub mod config;
pub mod domains;
pub mod errors;
pub mod laws;
pub mod queue;
pub mod relay;
pub mod text;
pub mod transport;
pub mod trusted;

verus! {

/// Largest number of queue rows a single worker cycle may claim.
pub const CLAIM_BATCH_LIMIT: usize = 10;

} // verus!
