//! Fleet diagnostics for a distributed filesystem cluster: node selection,
//! remote probe commands, outcome classification and the live progress model.
//!
//! - `client`: the mount check's probes, the per-node worker and the
//!   aggregator that owns the result matrix and ends the live run.
//! - `checks`, `storage`: the one-shot checks and their warnings.
//! - `config`, `transport`: the inventory, selectors and the command runner.
//! - `cli`: the command-line grammar.
//! - `text`, `order`, `shell`: string helpers, sorted grouping, shell quoting.
pub mod text;
pub mod config;
pub mod transport;
pub mod shell;
pub mod client;
pub mod order;
pub mod checks;
pub mod storage;
pub mod cli;
