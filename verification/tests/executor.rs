use odometer::bench_summary::{BenchEngineAPIRequestSummary, BenchInput, SequenceItem};
use odometer::engine_api::{
    EngineApiRequest, EngineApiResponse, ExecutionPayloadV3, ForkChoiceStateV3,
    ForkChoiceUpdatedResult, NewPayloadResult, NewPayloadV3Params, PayloadStatus, ResultType,
    TimedEngineApiResponse,
};
use odometer::gas::{compute_gas_per_second, format_gas_rate, parse_gas_used};
use odometer::kute::JwtError;
use odometer::sequence::{measure_step, SequenceError, SequenceRun};

fn payload(gas_used: Option<&str>) -> ExecutionPayloadV3 {
    ExecutionPayloadV3 {
        block_hash: String::from("0x01"),
        block_number: String::from("0x1"),
        parent_hash: String::from("0x00"),
        fee_recipient: String::from("0x0000000000000000000000000000000000000000"),
        gas_limit: String::from("0x1c9c380"),
        gas_used: gas_used.map(String::from),
        prev_randao: String::from("0x00"),
        receipts_root: String::from("0x00"),
        state_root: String::from("0x00"),
        timestamp: String::from("0x10"),
        transactions: None,
        withdrawals: None,
        blob_gas_used: String::from("0x0"),
        excess_blob_gas: String::from("0x0"),
        base_fee_per_gas: String::from("0x7"),
        extra_data: String::from("0x"),
        logs_bloom: String::from("0x00"),
    }
}

fn new_payload(gas_used: Option<&str>) -> EngineApiRequest {
    EngineApiRequest::NewPayloadV3 {
        jsonrpc: String::from("2.0"),
        id: 1,
        params: NewPayloadV3Params(payload(gas_used), Vec::new(), String::from("0x00")),
    }
}

fn fork_choice() -> EngineApiRequest {
    EngineApiRequest::ForkchoiceUpdatedV3 {
        jsonrpc: String::from("2.0"),
        id: 2,
        params: vec![ForkChoiceStateV3 {
            head_block_hash: String::from("0x01"),
            safe_block_hash: String::from("0x01"),
            finalized_block_hash: String::from("0x00"),
        }],
    }
}

fn step(description: &str, measured: bool, request: EngineApiRequest) -> SequenceItem {
    SequenceItem {
        description: String::from(description),
        expect_measurement: measured,
        request,
    }
}

fn case(name: &str, sequence: Vec<SequenceItem>) -> BenchInput {
    BenchInput {
        name: String::from(name),
        description: String::from("a case"),
        sequence,
    }
}

fn payload_answer(micros: u128) -> TimedEngineApiResponse {
    TimedEngineApiResponse {
        time_taken_microseconds: micros,
        response: EngineApiResponse {
            jsonrpc: String::from("2.0"),
            id: 1,
            result: ResultType::NewPayload(NewPayloadResult {
                status: String::from("VALID"),
                witness: None,
                latest_valid_hash: None,
                validation_error: None,
            }),
        },
    }
}

fn fork_choice_answer(micros: u128) -> TimedEngineApiResponse {
    TimedEngineApiResponse {
        time_taken_microseconds: micros,
        response: EngineApiResponse {
            jsonrpc: String::from("2.0"),
            id: 2,
            result: ResultType::ForkChoiceUpdated(ForkChoiceUpdatedResult {
                payload_status: PayloadStatus {
                    status: String::from("VALID"),
                    witness: None,
                    latest_valid_hash: None,
                    validation_error: None,
                },
                payload_id: None,
            }),
        },
    }
}

fn run_all(
    case: &BenchInput,
    mut outcomes: Vec<Result<TimedEngineApiResponse, JwtError>>,
) -> Result<(Vec<BenchEngineAPIRequestSummary>, Vec<String>, Vec<usize>), SequenceError> {
    outcomes.reverse();
    let mut run = SequenceRun::new(case);
    let mut warnings = Vec::new();
    let mut sent = Vec::new();
    while let Some(index) = run.next_step() {
        sent.push(index);
        let outcome = outcomes.pop().unwrap();
        if let Some(warning) = run.record(outcome)? {
            warnings.push(warning);
        }
    }
    Ok((run.finish(), warnings, sent))
}

#[test]
fn three_setup_steps_and_one_measured_step() {
    let case = case(
        "four",
        vec![
            step("deploy", false, new_payload(Some("0x5208"))),
            step("move head", false, fork_choice()),
            step("warm up", false, new_payload(Some("0x5208"))),
            step("burn gas", true, new_payload(Some("0x1C9C380"))),
        ],
    );
    let (kept, warnings, sent) = run_all(
        &case,
        vec![
            Ok(payload_answer(7)),
            Ok(fork_choice_answer(8)),
            Ok(payload_answer(9)),
            Ok(payload_answer(10_000)),
        ],
    )
    .unwrap();
    assert_eq!(sent, vec![0, 1, 2, 3]);
    assert!(warnings.is_empty());
    assert_eq!(kept.len(), 1);
    assert_eq!(kept[0].description, "burn gas");
    assert_eq!(kept[0].gas_used, "0x1C9C380");
    assert_eq!(kept[0].time_taken_microseconds, 10_000);
    assert_eq!(kept[0].response, payload_answer(10_000).response);
}

#[test]
fn measured_fork_choice_update_is_a_contract_error() {
    let case = case(
        "broken",
        vec![
            step("deploy", false, new_payload(Some("0x5208"))),
            step("move head", true, fork_choice()),
            step("burn gas", true, new_payload(Some("0x1C9C380"))),
        ],
    );
    let outcome = run_all(
        &case,
        vec![
            Ok(payload_answer(7)),
            Ok(fork_choice_answer(8)),
            Ok(payload_answer(9)),
        ],
    );
    assert_eq!(outcome, Err(SequenceError::MissingGasUsed(1)));
}

#[test]
fn measured_payload_without_gas_is_a_contract_error() {
    let case = case("broken", vec![step("burn gas", true, new_payload(None))]);
    assert_eq!(
        run_all(&case, vec![Ok(payload_answer(7))]),
        Err(SequenceError::MissingGasUsed(0))
    );
}

#[test]
fn contract_error_leaves_the_run_as_it_was() {
    let case = case(
        "broken",
        vec![
            step("burn gas", true, new_payload(Some("0x10"))),
            step("move head", true, fork_choice()),
        ],
    );
    let mut run = SequenceRun::new(&case);
    assert_eq!(run.record(Ok(payload_answer(5))), Ok(None));
    assert_eq!(
        run.record(Ok(fork_choice_answer(6))),
        Err(SequenceError::MissingGasUsed(1))
    );
    assert_eq!(run.next_step(), Some(1));
    let kept = run.finish();
    assert_eq!(kept.len(), 1);
    assert_eq!(kept[0].description, "burn gas");
}

#[test]
fn failed_call_is_passed_over_with_a_warning() {
    let case = case(
        "flaky",
        vec![
            step("deploy", false, new_payload(Some("0x5208"))),
            step("first burn", true, new_payload(Some("0x10"))),
            step("second burn", true, new_payload(Some("0x20"))),
        ],
    );
    let (kept, warnings, sent) = run_all(
        &case,
        vec![
            Err(JwtError::RequestError(String::from("connection refused"))),
            Err(JwtError::HttpStatus(500)),
            Ok(payload_answer(11)),
        ],
    )
    .unwrap();
    assert_eq!(sent, vec![0, 1, 2]);
    assert_eq!(
        warnings,
        vec![
            String::from("fail HTTP error: connection refused"),
            String::from("fail HTTP status: 500"),
        ]
    );
    assert_eq!(kept.len(), 1);
    assert_eq!(kept[0].description, "second burn");
    assert_eq!(kept[0].gas_used, "0x20");
    assert_eq!(kept[0].time_taken_microseconds, 11);
}

#[test]
fn failed_call_hides_a_missing_gas_figure() {
    let case = case("broken", vec![step("move head", true, fork_choice())]);
    let (kept, warnings, _) = run_all(
        &case,
        vec![Err(JwtError::RequestError(String::from("timed out")))],
    )
    .unwrap();
    assert!(kept.is_empty());
    assert_eq!(warnings, vec![String::from("fail HTTP error: timed out")]);
}

#[test]
fn summaries_come_in_step_order() {
    let case = case(
        "many",
        vec![
            step("a", true, new_payload(Some("0x1"))),
            step("b", false, fork_choice()),
            step("c", true, new_payload(Some("0x2"))),
            step("d", true, new_payload(Some("0x3"))),
        ],
    );
    let (kept, _, _) = run_all(
        &case,
        vec![
            Ok(payload_answer(1)),
            Ok(fork_choice_answer(2)),
            Ok(payload_answer(3)),
            Ok(payload_answer(4)),
        ],
    )
    .unwrap();
    let descriptions: Vec<&str> = kept.iter().map(|s| s.description.as_str()).collect();
    assert_eq!(descriptions, vec!["a", "c", "d"]);
    let times: Vec<u128> = kept.iter().map(|s| s.time_taken_microseconds).collect();
    assert_eq!(times, vec![1, 3, 4]);
}

#[test]
fn empty_case_sends_nothing() {
    let case = case("empty", Vec::new());
    let run = SequenceRun::new(&case);
    assert_eq!(run.next_step(), None);
    assert!(run.finish().is_empty());
}

#[test]
fn setup_steps_alone_leave_nothing() {
    let case = case(
        "setup",
        vec![
            step("deploy", false, new_payload(Some("0x5208"))),
            step("move head", false, fork_choice()),
        ],
    );
    let (kept, warnings, sent) = run_all(
        &case,
        vec![Ok(payload_answer(1)), Ok(fork_choice_answer(2))],
    )
    .unwrap();
    assert!(kept.is_empty());
    assert!(warnings.is_empty());
    assert_eq!(sent, vec![0, 1]);
}

#[test]
fn one_step_is_measured_by_itself() {
    let item = step("burn gas", true, new_payload(Some("0x1C9C380")));
    let kept = measure_step(3, &item, Some(payload_answer(10_000))).unwrap().unwrap();
    assert_eq!(
        kept,
        BenchEngineAPIRequestSummary {
            description: String::from("burn gas"),
            time_taken_microseconds: 10_000,
            gas_used: String::from("0x1C9C380"),
            response: payload_answer(10_000).response,
        }
    );
    assert_eq!(measure_step(3, &item, None), Ok(None));
    let setup = step("move head", false, fork_choice());
    assert_eq!(measure_step(0, &setup, Some(fork_choice_answer(1))), Ok(None));
    let broken = step("move head", true, fork_choice());
    assert_eq!(
        measure_step(5, &broken, Some(fork_choice_answer(1))),
        Err(SequenceError::MissingGasUsed(5))
    );
}

#[test]
fn contract_error_describes_itself() {
    assert_eq!(
        SequenceError::MissingGasUsed(12).message(),
        "expected a gas used parameter for elements we are benchmarking: step 12"
    );
}

#[test]
fn thirty_million_case_end_to_end() {
    let case = case(
        "30M",
        vec![
            step("deploy", false, new_payload(Some("0x5208"))),
            step("burn 30M gas", true, new_payload(Some("0x1C9C380"))),
        ],
    );
    let (kept, _, _) = run_all(
        &case,
        vec![Ok(payload_answer(10_000)), Ok(payload_answer(10_000))],
    )
    .unwrap();
    assert_eq!(kept.len(), 1);
    let gas = parse_gas_used(&kept[0].gas_used);
    assert_eq!(gas, 30_000_000);
    let rate = compute_gas_per_second(gas, kept[0].time_taken_microseconds);
    assert_eq!(rate, 3_000_000_000);
    assert_eq!(format_gas_rate(rate), "3.00 Ggas/s");
}
