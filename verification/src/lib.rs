//! The core of a relay multiplexer for proposer-builder separation. The
//! multiplexer stands between a proposer and a set of relays: it asks every
//! relay for its best bid, serves the most valuable valid one to the
//! proposer, and has the payload revealed by the relays that made it once
//! the proposer has signed.
//!
//! This crate holds what the multiplexer decides and remembers, each
//! function with its contract: the ranking and the validation of bids, the
//! bookkeeping of outstanding bids, and the three operations of the builder
//! API as decisions over the answers of the relays. The calls to the relays
//! are made by whoever owns the process and handed in as plain values.
//! Beside the core stand the wire details of the builder API, the
//! configuration of the service, and what a build says of itself.

pub mod auction;
pub mod client;
pub mod cmd;
pub mod error;
pub mod hex;
pub mod metrics;
pub mod outstanding;
pub mod primitives;
pub mod ranker;
pub mod relay_mux;
pub mod service;
pub mod types;
pub mod uint;
pub mod validator;
pub mod version;
