use odometer::engine_api::{
    EngineApiRequest, ExecutionPayloadV3, ForkChoiceStateV3, ForkChoiceUpdatedResult,
    NewPayloadResult, NewPayloadV3Params, PayloadStatus, ResultType, FORKCHOICE_UPDATED_V3,
    NEW_PAYLOAD_V3,
};

fn payload(gas_used: Option<&str>) -> ExecutionPayloadV3 {
    ExecutionPayloadV3 {
        block_hash: String::from("0x01"),
        block_number: String::from("0x1"),
        parent_hash: String::from("0x00"),
        fee_recipient: String::from("0x0000000000000000000000000000000000000000"),
        gas_limit: String::from("0x1c9c380"),
        gas_used: gas_used.map(String::from),
        prev_randao: String::from("0x00"),
        receipts_root: String::from("0x00"),
        state_root: String::from("0x00"),
        timestamp: String::from("0x10"),
        transactions: Some(vec![String::from("0x02")]),
        withdrawals: Some(Vec::new()),
        blob_gas_used: String::from("0x0"),
        excess_blob_gas: String::from("0x0"),
        base_fee_per_gas: String::from("0x7"),
        extra_data: String::from("0x"),
        logs_bloom: String::from("0x00"),
    }
}

fn new_payload(gas_used: Option<&str>) -> EngineApiRequest {
    EngineApiRequest::NewPayloadV3 {
        jsonrpc: String::from("2.0"),
        id: 1,
        params: NewPayloadV3Params(payload(gas_used), Vec::new(), String::from("0x00")),
    }
}

fn fork_choice() -> EngineApiRequest {
    EngineApiRequest::ForkchoiceUpdatedV3 {
        jsonrpc: String::from("2.0"),
        id: 2,
        params: vec![ForkChoiceStateV3 {
            head_block_hash: String::from("0x01"),
            safe_block_hash: String::from("0x01"),
            finalized_block_hash: String::from("0x00"),
        }],
    }
}

fn payload_result(status: &str) -> ResultType {
    ResultType::NewPayload(NewPayloadResult {
        status: String::from(status),
        witness: None,
        latest_valid_hash: None,
        validation_error: None,
    })
}

fn fork_choice_result(status: &str) -> ResultType {
    ResultType::ForkChoiceUpdated(ForkChoiceUpdatedResult {
        payload_status: PayloadStatus {
            status: String::from(status),
            witness: None,
            latest_valid_hash: None,
            validation_error: None,
        },
        payload_id: None,
    })
}

#[test]
fn payload_submission_names_its_gas() {
    assert_eq!(
        new_payload(Some("0x1C9C380")).gas_used(),
        Some(String::from("0x1C9C380"))
    );
    assert_eq!(new_payload(Some("")).gas_used(), Some(String::new()));
}

#[test]
fn payload_submission_without_gas_names_none() {
    assert_eq!(new_payload(None).gas_used(), None);
}

#[test]
fn fork_choice_update_names_no_gas() {
    assert_eq!(fork_choice().gas_used(), None);
}

#[test]
fn requests_have_their_wire_names() {
    assert_eq!(new_payload(None).method(), "engine_newPayloadV3");
    assert_eq!(fork_choice().method(), "engine_forkchoiceUpdatedV3");
    assert_eq!(NEW_PAYLOAD_V3, "engine_newPayloadV3");
    assert_eq!(FORKCHOICE_UPDATED_V3, "engine_forkchoiceUpdatedV3");
}

#[test]
fn request_says_which_result_answers_it() {
    assert!(new_payload(None).expects(&payload_result("VALID")));
    assert!(!new_payload(None).expects(&fork_choice_result("VALID")));
    assert!(fork_choice().expects(&fork_choice_result("VALID")));
    assert!(!fork_choice().expects(&payload_result("VALID")));
}

#[test]
fn result_shows_the_status_of_the_client() {
    assert_eq!(payload_result("VALID").status(), "VALID");
    assert_eq!(fork_choice_result("SYNCING").status(), "SYNCING");
    assert_eq!(payload_result("INVALID").status(), "INVALID");
}
