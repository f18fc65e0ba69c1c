//! Transactional control surface of an incremental query-evaluation engine:
//! update validation, the transaction lifecycle, the handler chain that
//! derives deltas and materialized snapshots, and the replay transcript.
pub mod delta;
pub mod engine;
pub mod error;
pub mod handler;
pub mod laws;
pub mod replay;
pub mod schema;
pub mod types;
