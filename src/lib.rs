//! Historical backfill of an on-chain price oracle.
//!
//! The library holds the decisions of a backfill run: which round ids to
//! request next, which fetched rounds are written, when the run stops, and how
//! each round is rendered as a CSV row. The remote calls, the concurrency of a
//! batch and the file writes are left to the caller.

mod backfill;
mod config;
mod decimal;
mod node;
mod record;
mod sink;
mod uint256;

pub use backfill::{Backfill, DEFAULT_BATCH_SIZE, DEFAULT_DEPTH};
pub use config::{default_targets, OracleTarget};
pub use node::connect_error_message;
pub use record::{FetchFailure, FetchOutcome, RoundRecord};
pub use sink::{header_row, record_row};
pub use uint256::Uint256;
