//! Aggregation and delivery core of a distributed coin-flipping harness:
//! run-length histograms, their sparse wire form, the collector's windowed
//! per-client tally, and the worker's at-least-once batch sender.
pub mod pb;
pub mod stats;
pub mod tally;
pub mod sender;
pub mod flipper;
pub mod server;
pub mod status;
pub mod persistence;
