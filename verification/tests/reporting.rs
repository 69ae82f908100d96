use ibm_rust::dispatch::{after_load, after_run, ExecutionResult};
use ibm_rust::errors::error_kind::ErrorKind;
use ibm_rust::errors::invalid_operation_error::InvalidOperationError;
use ibm_rust::instruments::acts_as_control::{ControlMaker, GetResponse, PostResponse};
use ibm_rust::programs::quantum_program::{Numeric, Operation, QuantumProgram};
use ibm_rust::report::{render_result, report_lines, sort_results};
use ibm_rust::text::lex_le_exec;

fn value(id: &str, v: &str) -> ExecutionResult {
    ExecutionResult::success(id.to_string(), v.to_string())
}

fn failed(id: &str, e: ErrorKind) -> ExecutionResult {
    ExecutionResult::failure(id.to_string(), e)
}

#[test]
fn report_orders_by_id_and_keeps_failures() {
    // Completion order has the failing program first; the report orders by id.
    let results = vec![failed("p2", ErrorKind::UnknownBackend), value("p1", "12.5")];
    let lines = report_lines(results);
    assert_eq!(lines, vec!["p1:  12.5".to_string(), "p2:  unknown backend".to_string()]);
}

#[test]
fn report_order_is_stable_under_completion_order() {
    let one = vec![value("b", "2"), failed("a", ErrorKind::DivideByZero), value("c", "3")];
    let other = vec![value("c", "3"), value("b", "2"), failed("a", ErrorKind::DivideByZero)];
    assert_eq!(report_lines(one), report_lines(other));
}

#[test]
fn report_has_one_line_per_result() {
    let results = vec![value("q3", "1"), value("q1", "2"), value("q2", "3"), value("q0", "4")];
    let lines = report_lines(results);
    assert_eq!(lines.len(), 4);
    assert_eq!(
        lines,
        vec![
            "q0:  4".to_string(),
            "q1:  2".to_string(),
            "q2:  3".to_string(),
            "q3:  1".to_string(),
        ]
    );
}

#[test]
fn sort_results_orders_ids() {
    let results = vec![value("delta", "1"), value("alpha", "2"), value("charlie", "3")];
    let sorted = sort_results(results);
    let ids: Vec<&str> = sorted.iter().map(|r| r.program_id.as_str()).collect();
    assert_eq!(ids, vec!["alpha", "charlie", "delta"]);
}

#[test]
fn render_value_and_error_lines() {
    assert_eq!(render_result(&value("p1", "99")), "p1:  99");
    assert_eq!(
        render_result(&failed("p4", ErrorKind::MalformedResponse)),
        "p4:  malformed response"
    );
    assert_eq!(
        render_result(&failed("p5", ErrorKind::NetworkFailure)),
        "p5:  network failure"
    );
    assert_eq!(
        render_result(&failed("p6", ErrorKind::InvalidOperation)),
        "p6:  invalid operation"
    );
}

#[test]
fn lexicographic_order_on_ids() {
    assert!(lex_le_exec("", "a"));
    assert!(lex_le_exec("a", "a"));
    assert!(lex_le_exec("a", "ab"));
    assert!(lex_le_exec("ab", "b"));
    assert!(!lex_le_exec("b", "ab"));
    assert!(!lex_le_exec("ab", "a"));
}

#[test]
fn batch_with_unknown_and_valid_instruments() {
    // The batch holds one program with an unknown instrument and one valid
    // program; the valid one still succeeds against a stub backend, and the
    // report lists both, ordered by id, with the unknown one marked failed.
    let p1 = QuantumProgram::new(
        "p1".to_string(),
        "Acme".to_string(),
        Numeric::new("10".to_string(), false),
        vec![Operation::new("Sum".to_string(), Numeric::new("5".to_string(), false))],
    );
    let p2 = QuantumProgram::new(
        "p2".to_string(),
        "Unseen".to_string(),
        Numeric::new("1".to_string(), false),
        Vec::new(),
    );
    let mut results: Vec<ExecutionResult> = Vec::new();
    match ControlMaker::new_instrument(&p2) {
        Err(e) => results.push(ExecutionResult::failure(p2.id.clone(), e)),
        Ok(_) => panic!("p2's instrument must not resolve"),
    }
    let instrument = ControlMaker::new_instrument(&p1).expect("p1 is valid");
    let run_url = after_load(
        &instrument,
        Ok(PostResponse { program_id: "job-1".to_string() }),
    )
    .expect("the stub load step succeeded");
    assert_eq!(run_url, "http://127.0.0.1:8001/run_program/job-1");
    results.push(after_run(
        p1.id.clone(),
        Ok(GetResponse { result: "125".to_string() }),
    ));
    let lines = report_lines(results);
    assert_eq!(lines, vec!["p1:  125".to_string(), "p2:  unknown backend".to_string()]);
}

#[test]
fn invalid_operation_message() {
    let e = InvalidOperationError;
    assert_eq!(
        e.message(),
        "An invalid operation was passed when parsing the input JSON data."
    );
}
