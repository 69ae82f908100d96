use ibm_rust::dispatch::{after_load, after_run, ExecutionResult, Outcome, WireFault};
use ibm_rust::errors::error_kind::ErrorKind;
use ibm_rust::instruments::acts_as_control::{ControlMaker, GetResponse, PostResponse};
use ibm_rust::programs::quantum_program::{Numeric, Operation, QuantumProgram};

fn num(text: &str) -> Numeric {
    Numeric::new(text.to_string(), text == "0" || text == "-0")
}

fn op(kind: &str, value: &str) -> Operation {
    Operation::new(kind.to_string(), num(value))
}

fn program(id: &str, instrument: &str, initial: &str, operations: Vec<Operation>) -> QuantumProgram {
    QuantumProgram::new(id.to_string(), instrument.to_string(), num(initial), operations)
}

#[test]
fn acme_urls() {
    let p = program("p1", "Acme", "10", vec![op("Sum", "5")]);
    let instrument = ControlMaker::new_instrument(&p).expect("valid program");
    assert_eq!(instrument.load_url(), "http://127.0.0.1:8001/load_program");
    let handle = PostResponse { program_id: "j1".to_string() };
    assert_eq!(
        instrument.run_url(&handle),
        "http://127.0.0.1:8001/run_program/j1"
    );
}

#[test]
fn madrid_urls() {
    let p = program("p2", "Madrid", "4", Vec::new());
    let instrument = ControlMaker::new_instrument(&p).expect("valid program");
    assert_eq!(instrument.load_url(), "http://127.0.0.1:8000/program/load");
    let handle = PostResponse { program_id: "job-7".to_string() };
    assert_eq!(
        instrument.run_url(&handle),
        "http://127.0.0.1:8000/program/run/job-7"
    );
}

#[test]
fn acme_wire_body_golden() {
    let p = program("p1", "Acme", "10", vec![op("Sum", "5")]);
    let instrument = ControlMaker::new_instrument(&p).expect("valid program");
    assert_eq!(
        instrument.load_body(),
        "{\"type\":\"Acme\",\"value\":{\"program_code\":[\"Acme_initial_state_pulse\",\"10\",\"Acme_pulse_1\",\"Acme_pulse_2\",\"5\"]}}"
    );
}

#[test]
fn wire_body_is_valid_json() {
    let p = program("p2", "Madrid", "4", vec![op("Mul", "2")]);
    let instrument = ControlMaker::new_instrument(&p).expect("valid program");
    let body = instrument.load_body();
    let value: serde_json::Value = serde_json::from_str(&body).expect("well-formed envelope");
    assert_eq!(value["type"], "Madrid");
    let tokens = value["value"]["program_code"]
        .as_array()
        .expect("a token array");
    let texts: Vec<&str> = tokens.iter().map(|t| t.as_str().unwrap()).collect();
    assert_eq!(
        texts,
        vec!["4", "Madrid_initial_state_pulse", "2", "Madrid_pulse_2", "Madrid_pulse_2"]
    );
}

#[test]
fn wire_body_escapes_tokens() {
    let p = program("e1", "Acme", "1", vec![op("Sum", "a\"b\\c\nd")]);
    let instrument = ControlMaker::new_instrument(&p).expect("valid program");
    let body = instrument.load_body();
    assert!(body.contains("a\\\"b\\\\c\\nd"));
    let value: serde_json::Value = serde_json::from_str(&body).expect("well-formed envelope");
    let tokens = value["value"]["program_code"].as_array().expect("tokens");
    assert_eq!(tokens[4].as_str().unwrap(), "a\"b\\c\nd");
}

#[test]
fn round_trip_with_stub_backend() {
    let p = program("p1", "Acme", "10", vec![op("Sum", "5")]);
    let instrument = ControlMaker::new_instrument(&p).expect("valid program");
    // Stub load step: the backend echoes a fixed job handle for the posted body.
    let _body = instrument.load_body();
    let loaded = after_load(
        &instrument,
        Ok(PostResponse { program_id: "stub-job".to_string() }),
    );
    let run_url = loaded.expect("the load step succeeded");
    assert_eq!(run_url, "http://127.0.0.1:8001/run_program/stub-job");
    // Stub run step: the backend answers with a fixed numeric result.
    let result = after_run(
        p.id.clone(),
        Ok(GetResponse { result: "42.5".to_string() }),
    );
    assert_eq!(result.program_id, "p1");
    assert_eq!(result.outcome, Outcome::Value("42.5".to_string()));
}

#[test]
fn load_connection_fault_is_network_failure() {
    let p = program("p1", "Acme", "10", Vec::new());
    let instrument = ControlMaker::new_instrument(&p).expect("valid program");
    let loaded = after_load(&instrument, Err(WireFault::Connection));
    assert_eq!(loaded, Err(ErrorKind::NetworkFailure));
}

#[test]
fn load_bad_payload_is_malformed_response() {
    let p = program("p1", "Madrid", "10", Vec::new());
    let instrument = ControlMaker::new_instrument(&p).expect("valid program");
    let loaded = after_load(&instrument, Err(WireFault::BadPayload));
    assert_eq!(loaded, Err(ErrorKind::MalformedResponse));
}

#[test]
fn run_faults_become_failures() {
    let r = after_run("p9".to_string(), Err(WireFault::Connection));
    assert_eq!(r.outcome, Outcome::Failed(ErrorKind::NetworkFailure));
    let r = after_run("p9".to_string(), Err(WireFault::BadPayload));
    assert_eq!(r.outcome, Outcome::Failed(ErrorKind::MalformedResponse));
}

#[test]
fn failure_result_keeps_id() {
    let r = ExecutionResult::failure("p3".to_string(), ErrorKind::UnknownBackend);
    assert_eq!(r.program_id, "p3");
    assert_eq!(r.outcome, Outcome::Failed(ErrorKind::UnknownBackend));
}
