//! Measures the throughput of execution-layer clients in gas per second.
//!
//! The crate holds the decisions of an Engine-API benchmark harness: the
//! message model, the bearer token of the authenticated transport, the
//! executor of a benchmark case, the gas-rate calculator and the matrix that
//! compares clients. Every function carries a contract that Verus proves.
//! Process control, HTTP and JSON stay with the caller, which hands over
//! plain values and performs what the library decides.

pub mod bench_summary;
pub mod docker;
pub mod engine_api;
pub mod gas;
pub mod kute;
pub mod matrix;
pub mod natural;
pub mod orchestrator;
pub mod project;
pub mod secret;
pub mod sequence;
pub mod text;
