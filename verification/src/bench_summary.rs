//! A benchmark case, its steps, and what is kept of a measured step.

use vstd::prelude::*;
use crate::engine_api::{EngineApiRequest, EngineApiResponse};

verus! {

/// A benchmark case: a name, a description and the requests to send, in
/// order. To fill a block with gas a case first deploys a contract and
/// moves the head; only the call that spends the gas is measured.
#[derive(Debug, Clone, PartialEq, Eq)]
pub struct BenchInput {
    pub name: String,
    pub description: String,
    pub sequence: Vec<SequenceItem>,
}

/// One step of a case: a request, and whether its timing is kept.
#[derive(Debug, Clone, PartialEq, Eq)]
pub struct SequenceItem {
    pub description: String,
    pub expect_measurement: bool,
    pub request: EngineApiRequest,
}

/// What is kept of a measured step: its description, the time its request
/// took, the gas its payload used, and the client's response.
#[derive(Debug, Clone, PartialEq, Eq)]
pub struct BenchEngineAPIRequestSummary {
    pub description: String,
    pub time_taken_microseconds: u128,
    pub gas_used: String,
    pub response: EngineApiResponse,
}

} // verus!
