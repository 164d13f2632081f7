//! The Engine-API message model: the two requests that a benchmark sends
//! and the results that a client answers with. Numbers and hashes are hex
//! text, as they are on the wire.

use vstd::prelude::*;

verus! {

/// The wire name of the payload submission.
pub const NEW_PAYLOAD_V3: &'static str = "engine_newPayloadV3";

/// The wire name of the fork-choice update.
pub const FORKCHOICE_UPDATED_V3: &'static str = "engine_forkchoiceUpdatedV3";

/// The three block hashes of a fork-choice update.
#[derive(Debug, Clone, PartialEq, Eq)]
pub struct ForkChoiceStateV3 {
    pub head_block_hash: String,
    pub safe_block_hash: String,
    pub finalized_block_hash: String,
}

/// A candidate block, as a payload submission carries it.
#[derive(Debug, Clone, PartialEq, Eq)]
pub struct ExecutionPayloadV3 {
    pub block_hash: String,
    pub block_number: String,
    pub parent_hash: String,
    pub fee_recipient: String,
    pub gas_limit: String,
    pub gas_used: Option<String>,
    pub prev_randao: String,
    pub receipts_root: String,
    pub state_root: String,
    pub timestamp: String,
    pub transactions: Option<Vec<String>>,
    pub withdrawals: Option<Vec<Withdrawal>>,
    pub blob_gas_used: String,
    pub excess_blob_gas: String,
    pub base_fee_per_gas: String,
    pub extra_data: String,
    pub logs_bloom: String,
}

/// A withdrawal inside a payload.
#[derive(Debug, Clone, PartialEq, Eq)]
pub struct Withdrawal {
    pub index: String,
    pub validator_index: String,
    pub address: String,
    pub amount: String,
}

/// The parameters of a payload submission: the payload, the versioned
/// hashes of its blobs, and the parent beacon block root.
#[derive(Debug, Clone, PartialEq, Eq)]
pub struct NewPayloadV3Params(pub ExecutionPayloadV3, pub Vec<String>, pub String);

/// A request to the execution client, with its JSON-RPC envelope.
#[derive(Debug, Clone, PartialEq, Eq)]
pub enum EngineApiRequest {
    NewPayloadV3 { jsonrpc: String, id: u64, params: NewPayloadV3Params },
    ForkchoiceUpdatedV3 { jsonrpc: String, id: u64, params: Vec<ForkChoiceStateV3> },
}

/// The status that a client gives to a payload.
#[derive(Debug, Clone, PartialEq, Eq)]
pub struct PayloadStatus {
    pub status: String,
    pub witness: Option<String>,
    pub latest_valid_hash: Option<String>,
    pub validation_error: Option<String>,
}

/// The result of a fork-choice update.
#[derive(Debug, Clone, PartialEq, Eq)]
pub struct ForkChoiceUpdatedResult {
    pub payload_status: PayloadStatus,
    pub payload_id: Option<String>,
}

/// The result of a payload submission.
#[derive(Debug, Clone, PartialEq, Eq)]
pub struct NewPayloadResult {
    pub status: String,
    pub witness: Option<String>,
    pub latest_valid_hash: Option<String>,
    pub validation_error: Option<String>,
}

/// One of the two shapes of a result. The wire carries no tag: the request
/// that was sent says which shape its answer has.
#[derive(Debug, Clone, PartialEq, Eq)]
pub enum ResultType {
    ForkChoiceUpdated(ForkChoiceUpdatedResult),
    NewPayload(NewPayloadResult),
}

/// A response of the execution client, with its JSON-RPC envelope.
#[derive(Debug, Clone, PartialEq, Eq)]
pub struct EngineApiResponse {
    pub jsonrpc: String,
    pub id: u64,
    pub result: ResultType,
}

/// A response together with the time that its round trip took.
#[derive(Debug, Clone, PartialEq, Eq)]
pub struct TimedEngineApiResponse {
    pub time_taken_microseconds: u128,
    pub response: EngineApiResponse,
}

impl EngineApiRequest {
    /// The hex gas figure of the payload where the request submits one, and
    /// `None` for every other request.
    pub open spec fn gas_figure(self) -> Option<String> {
        match self {
            EngineApiRequest::NewPayloadV3 { params, .. } => params.0.gas_used,
            EngineApiRequest::ForkchoiceUpdatedV3 { .. } => None,
        }
    }

    /// Whether the request submits a payload.
    pub open spec fn submits_payload(self) -> bool {
        self is NewPayloadV3
    }

    /// The gas that the submitted payload used, as hex text.
    pub fn gas_used(&self) -> (gas: Option<String>)
        ensures
            gas == self.gas_figure(),
            !self.submits_payload() ==> gas is None,
    {
        match self {
            EngineApiRequest::NewPayloadV3 { params, .. } => {
                match &params.0.gas_used {
                    Some(gas) => Some(gas.clone()),
                    None => None,
                }
            },
            EngineApiRequest::ForkchoiceUpdatedV3 { .. } => None,
        }
    }

    /// The method name that the request has on the wire.
    pub fn method(&self) -> (name: &'static str)
        ensures
            self.submits_payload() ==> name@ == NEW_PAYLOAD_V3@,
            !self.submits_payload() ==> name@ == FORKCHOICE_UPDATED_V3@,
    {
        match self {
            EngineApiRequest::NewPayloadV3 { .. } => NEW_PAYLOAD_V3,
            EngineApiRequest::ForkchoiceUpdatedV3 { .. } => FORKCHOICE_UPDATED_V3,
        }
    }

    /// Whether `result` has the shape that answers this request: a payload
    /// result for a payload submission, a fork-choice result for a
    /// fork-choice update.
    pub fn expects(&self, result: &ResultType) -> (fits: bool)
        ensures
            fits == (self.submits_payload() == (result is NewPayload)),
    {
        match (self, result) {
            (EngineApiRequest::NewPayloadV3 { .. }, ResultType::NewPayload(_)) => true,
            (EngineApiRequest::ForkchoiceUpdatedV3 { .. }, ResultType::ForkChoiceUpdated(_)) => true,
            _ => false,
        }
    }
}

impl ResultType {
    /// The status text of a result, whichever shape it has.
    pub open spec fn status_text(self) -> Seq<char> {
        match self {
            ResultType::ForkChoiceUpdated(r) => r.payload_status.status@,
            ResultType::NewPayload(r) => r.status@,
        }
    }

    /// The status that the client returned.
    pub fn status(&self) -> (status: String)
        ensures
            status@ == self.status_text(),
    {
        match self {
            ResultType::ForkChoiceUpdated(r) => r.payload_status.status.clone(),
            ResultType::NewPayload(r) => r.status.clone(),
        }
    }
}

} // verus!
