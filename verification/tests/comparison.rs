use odometer::bench_summary::{BenchEngineAPIRequestSummary, BenchInput};
use odometer::engine_api::{EngineApiResponse, NewPayloadResult, ResultType};
use odometer::matrix::{header, rate_text, MatrixError, ResultMatrix};
use odometer::orchestrator::{
    advance, client_name, file_has_extension, is_case_file, sort_cases, start, Stage,
};
use odometer::text::{chars_of, contains_text, decimal_text};

fn summary(gas_used: &str, micros: u128) -> BenchEngineAPIRequestSummary {
    BenchEngineAPIRequestSummary {
        description: String::from("burn gas"),
        time_taken_microseconds: micros,
        gas_used: String::from(gas_used),
        response: EngineApiResponse {
            jsonrpc: String::from("2.0"),
            id: 1,
            result: ResultType::NewPayload(NewPayloadResult {
                status: String::from("VALID"),
                witness: None,
                latest_valid_hash: None,
                validation_error: None,
            }),
        },
    }
}

fn case(name: &str, description: &str) -> BenchInput {
    BenchInput {
        name: String::from(name),
        description: String::from(description),
        sequence: Vec::new(),
    }
}

fn texts(cells: &[&str]) -> Vec<String> {
    cells.iter().map(|c| String::from(*c)).collect()
}

fn names(cases: &[BenchInput]) -> Vec<&str> {
    cases.iter().map(|c| c.name.as_str()).collect()
}

#[test]
fn summary_becomes_a_rate() {
    assert_eq!(rate_text(&summary("0x1C9C380", 10_000)), Ok(String::from("3.00 Ggas/s")));
    assert_eq!(rate_text(&summary("0x5208", 1_000_000)), Ok(String::from("21000 gas/s")));
    assert_eq!(rate_text(&summary("0x1C9C380", 0)), Ok(String::from("0 gas/s")));
    assert_eq!(rate_text(&summary("0x1C9C380", 20_000_000)), Ok(String::from("1.50 Mgas/s")));
}

#[test]
fn summary_with_malformed_gas_is_refused() {
    assert_eq!(
        rate_text(&summary("thirty", 10_000)),
        Err(MatrixError::MalformedGas(String::from("thirty")))
    );
    assert_eq!(
        rate_text(&summary("", 10_000)),
        Err(MatrixError::MalformedGas(String::new()))
    );
    assert_eq!(
        MatrixError::MalformedGas(String::from("thirty")).message(),
        "Failed to parse hexadecimal string: thirty"
    );
}

#[test]
fn header_names_the_clients() {
    assert_eq!(
        header(&texts(&["geth", "reth"])),
        texts(&["Name", "Description", "geth", "reth"])
    );
    assert_eq!(header(&Vec::new()), texts(&["Name", "Description"]));
}

#[test]
fn new_matrix_is_empty() {
    let matrix = ResultMatrix::new(2, 3);
    let cases = vec![case("a", "first"), case("b", "second")];
    assert_eq!(
        matrix.rows_of(&cases),
        vec![
            texts(&["a", "first", "", "", ""]),
            texts(&["b", "second", "", "", ""]),
        ]
    );
    assert_eq!(ResultMatrix::new(0, 3).rows_of(&Vec::new()), Vec::<Vec<String>>::new());
    assert_eq!(
        ResultMatrix::new(1, 0).rows_of(&vec![case("a", "first")]),
        vec![texts(&["a", "first"])]
    );
}

#[test]
fn recorded_run_fills_its_cell_only() {
    let mut matrix = ResultMatrix::new(2, 2);
    assert_eq!(matrix.record(1, 0, &vec![summary("0x1C9C380", 10_000)]), Ok(()));
    let cases = vec![case("a", "first"), case("b", "second")];
    assert_eq!(
        matrix.rows_of(&cases),
        vec![
            texts(&["a", "first", "", ""]),
            texts(&["b", "second", "3.00 Ggas/s", ""]),
        ]
    );
    assert_eq!(matrix.record(0, 1, &vec![summary("0x5208", 1_000_000)]), Ok(()));
    assert_eq!(
        matrix.rows_of(&cases),
        vec![
            texts(&["a", "first", "", "21000 gas/s"]),
            texts(&["b", "second", "3.00 Ggas/s", ""]),
        ]
    );
}

#[test]
fn the_last_summary_of_a_run_is_shown() {
    let mut matrix = ResultMatrix::new(1, 1);
    assert_eq!(
        matrix.record(
            0,
            0,
            &vec![summary("0x5208", 1_000_000), summary("0x1C9C380", 10_000)]
        ),
        Ok(())
    );
    assert_eq!(
        matrix.rows_of(&vec![case("a", "first")]),
        vec![texts(&["a", "first", "3.00 Ggas/s"])]
    );
}

#[test]
fn run_without_summaries_leaves_the_cell() {
    let mut matrix = ResultMatrix::new(1, 1);
    assert_eq!(matrix.record(0, 0, &Vec::new()), Ok(()));
    assert_eq!(
        matrix.rows_of(&vec![case("a", "first")]),
        vec![texts(&["a", "first", ""])]
    );
    assert_eq!(matrix.record(0, 0, &vec![summary("0x5208", 1_000_000)]), Ok(()));
    assert_eq!(matrix.record(0, 0, &Vec::new()), Ok(()));
    assert_eq!(
        matrix.rows_of(&vec![case("a", "first")]),
        vec![texts(&["a", "first", "21000 gas/s"])]
    );
}

#[test]
fn malformed_gas_leaves_the_matrix_as_it_was() {
    let mut matrix = ResultMatrix::new(1, 1);
    assert_eq!(matrix.record(0, 0, &vec![summary("0x5208", 1_000_000)]), Ok(()));
    assert_eq!(
        matrix.record(
            0,
            0,
            &vec![summary("0x1C9C380", 10_000), summary("0xzz", 1), summary("bad", 1)]
        ),
        Err(MatrixError::MalformedGas(String::from("0xzz")))
    );
    assert_eq!(
        matrix.rows_of(&vec![case("a", "first")]),
        vec![texts(&["a", "first", "21000 gas/s"])]
    );
}

#[test]
fn cases_are_sorted_in_natural_order() {
    let mut cases = vec![
        case("test10", ""),
        case("test2", ""),
        case("test1", ""),
        case("alpha", ""),
        case("test", ""),
        case("100M", ""),
        case("30M", ""),
    ];
    sort_cases(&mut cases);
    assert_eq!(
        names(&cases),
        vec!["30M", "100M", "alpha", "test", "test1", "test2", "test10"]
    );
}

#[test]
fn sorting_keeps_cases_of_equal_standing_in_order() {
    let mut cases = vec![
        case("a2", "late"),
        case("a01", "first"),
        case("a1", "second"),
        case("a001", "third"),
        case("a0", "early"),
    ];
    sort_cases(&mut cases);
    let order: Vec<&str> = cases.iter().map(|c| c.description.as_str()).collect();
    assert_eq!(order, vec!["early", "first", "second", "third", "late"]);
}

#[test]
fn sorting_few_cases() {
    let mut none: Vec<BenchInput> = Vec::new();
    sort_cases(&mut none);
    assert!(none.is_empty());
    let mut one = vec![case("only", "")];
    sort_cases(&mut one);
    assert_eq!(names(&one), vec!["only"]);
    let mut two = vec![case("b", ""), case("a", "")];
    sort_cases(&mut two);
    assert_eq!(names(&two), vec!["a", "b"]);
}

#[test]
fn sorting_keeps_every_case() {
    let mut cases = vec![
        case("c9", "1"),
        case("c10", "2"),
        case("c9", "3"),
        case("b", "4"),
        case("c010", "5"),
    ];
    sort_cases(&mut cases);
    let order: Vec<(&str, &str)> = cases
        .iter()
        .map(|c| (c.name.as_str(), c.description.as_str()))
        .collect();
    assert_eq!(
        order,
        vec![("b", "4"), ("c9", "1"), ("c9", "3"), ("c10", "2"), ("c010", "5")]
    );
}

#[test]
fn compose_files_name_clients() {
    assert_eq!(client_name("geth.yml"), Some(String::from("geth")));
    assert_eq!(client_name("nethermind.v2.yml"), Some(String::from("nethermind.v2")));
    assert_eq!(client_name("a.yml.yml"), Some(String::from("a")));
    assert_eq!(client_name("..yml"), Some(String::from(".")));
    assert_eq!(client_name(".yml.yml"), Some(String::new()));
    assert_eq!(client_name("\u{e9}.yml"), Some(String::from("\u{e9}")));
}

#[test]
fn other_files_name_no_client() {
    assert_eq!(client_name("geth.yaml"), None);
    assert_eq!(client_name("geth.json"), None);
    assert_eq!(client_name("geth"), None);
    assert_eq!(client_name(".yml"), None);
    assert_eq!(client_name("yml"), None);
    assert_eq!(client_name(""), None);
    assert_eq!(client_name("geth.YML"), None);
    assert_eq!(client_name("geth.yml "), None);
}

#[test]
fn json_files_hold_cases() {
    assert!(is_case_file("gaslimit_30m.json"));
    assert!(is_case_file("a.b.json"));
    assert!(!is_case_file(".json"));
    assert!(!is_case_file("json"));
    assert!(!is_case_file("case.yml"));
    assert!(!is_case_file("case.json.bak"));
    assert!(file_has_extension("notes.txt", "txt"));
    assert!(!file_has_extension("notes.txt", "xt"));
    assert!(file_has_extension("a.", ""));
    assert!(!file_has_extension(".", ""));
}

#[test]
fn comparison_of_no_clients_shows_the_table() {
    assert_eq!(start(0), Stage::Render);
    assert_eq!(advance(Stage::Render, true, 0, 5), Stage::Render);
}

#[test]
fn clients_are_measured_one_after_another() {
    let clients = 2;
    let cases = 2;
    let mut stage = start(clients);
    let mut seen = vec![stage];
    while stage != Stage::Render {
        stage = advance(stage, true, clients, cases);
        seen.push(stage);
    }
    assert_eq!(
        seen,
        vec![
            Stage::Up(0),
            Stage::WaitHealthy(0),
            Stage::RunCase { client: 0, case: 0 },
            Stage::RunCase { client: 0, case: 1 },
            Stage::Down(0),
            Stage::Up(1),
            Stage::WaitHealthy(1),
            Stage::RunCase { client: 1, case: 0 },
            Stage::RunCase { client: 1, case: 1 },
            Stage::Down(1),
            Stage::Render,
        ]
    );
}

#[test]
fn client_that_does_not_listen_is_skipped() {
    let mut stage = start(2);
    let mut seen = vec![stage];
    while stage != Stage::Render {
        let healthy = stage != Stage::WaitHealthy(0);
        stage = advance(stage, healthy, 2, 1);
        seen.push(stage);
    }
    assert_eq!(
        seen,
        vec![
            Stage::Up(0),
            Stage::WaitHealthy(0),
            Stage::Down(0),
            Stage::Up(1),
            Stage::WaitHealthy(1),
            Stage::RunCase { client: 1, case: 0 },
            Stage::Down(1),
            Stage::Render,
        ]
    );
}

#[test]
fn client_without_cases_is_started_and_stopped() {
    assert_eq!(advance(Stage::WaitHealthy(0), true, 1, 0), Stage::Down(0));
    assert_eq!(advance(Stage::Down(0), true, 1, 0), Stage::Render);
}

#[test]
fn text_is_searched_for_a_word() {
    assert!(contains_text("fatal error: x", "error"));
    assert!(contains_text("error", "error"));
    assert!(contains_text("terror", "error"));
    assert!(contains_text("anything", ""));
    assert!(contains_text("", ""));
    assert!(!contains_text("", "error"));
    assert!(!contains_text("erro", "error"));
    assert!(!contains_text("err or", "error"));
    assert!(!contains_text("Error", "error"));
    assert!(contains_text("\u{e9}error", "error"));
}

#[test]
fn numbers_are_written_in_decimal() {
    assert_eq!(decimal_text(0), "0");
    assert_eq!(decimal_text(7), "7");
    assert_eq!(decimal_text(10), "10");
    assert_eq!(decimal_text(1_700_000_000), "1700000000");
    assert_eq!(
        decimal_text(u128::MAX),
        "340282366920938463463374607431768211455"
    );
    assert_eq!(chars_of("a\u{e9}1"), vec!['a', '\u{e9}', '1']);
}
