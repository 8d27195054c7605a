//! In-process core of an incremental dataflow engine.
//!
//! The crate maintains the result of accumulable aggregations under signed
//! row changes, tracks per-key transitions between snapshots, keeps
//! time-indexed operator state with expiry, and encodes error envelopes for
//! the wire.

pub mod status;
pub mod value;
pub mod repr;
pub mod expr;
pub mod accum;
pub mod assoc;
pub mod diff_map;
pub mod state;
pub mod strings;
pub mod header;
pub mod client;
pub mod meta;
pub mod adapter;
pub mod transform;
pub mod types;
pub mod laws;
