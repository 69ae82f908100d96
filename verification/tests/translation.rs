use ibm_rust::errors::error_kind::ErrorKind;
use ibm_rust::instruments::acme::Acme;
use ibm_rust::instruments::acts_as_control::{parse_operations, ControlMaker, Instrument};
use ibm_rust::programs::quantum_program::{Numeric, Operation, QuantumProgram};

fn num(text: &str) -> Numeric {
    Numeric::new(text.to_string(), text == "0" || text == "-0")
}

fn op(kind: &str, value: &str) -> Operation {
    Operation::new(kind.to_string(), num(value))
}

fn program(id: &str, instrument: &str, initial: &str, operations: Vec<Operation>) -> QuantumProgram {
    QuantumProgram::new(id.to_string(), instrument.to_string(), num(initial), operations)
}

#[test]
fn acme_golden_sum() {
    let p = program("p1", "Acme", "10", vec![op("Sum", "5")]);
    match ControlMaker::new_instrument(&p) {
        Ok(Instrument::Acme(a)) => {
            assert_eq!(
                a.program_code,
                vec![
                    "Acme_initial_state_pulse".to_string(),
                    "10".to_string(),
                    "Acme_pulse_1".to_string(),
                    "Acme_pulse_2".to_string(),
                    "5".to_string(),
                ]
            );
        }
        other => panic!("expected an Acme instrument, got {:?}", other.is_ok()),
    }
}

#[test]
fn acme_golden_mul_div() {
    let p = program("p1", "Acme", "7", vec![op("Mul", "3"), op("Div", "2")]);
    match ControlMaker::new_instrument(&p) {
        Ok(Instrument::Acme(a)) => {
            assert_eq!(
                a.program_code,
                vec![
                    "Acme_initial_state_pulse".to_string(),
                    "7".to_string(),
                    "Acme_pulse_2".to_string(),
                    "Acme_pulse_1".to_string(),
                    "Acme_pulse_1".to_string(),
                    "3".to_string(),
                    "Acme_pulse_2".to_string(),
                    "Acme_pulse_2".to_string(),
                    "2".to_string(),
                ]
            );
        }
        _ => panic!("expected an Acme instrument"),
    }
}

#[test]
fn madrid_golden_all_kinds() {
    let p = program(
        "m1",
        "Madrid",
        "8",
        vec![op("Sum", "1"), op("Mul", "2"), op("Div", "4")],
    );
    match ControlMaker::new_instrument(&p) {
        Ok(Instrument::Madrid(m)) => {
            assert_eq!(
                m.program_code,
                vec![
                    "8".to_string(),
                    "Madrid_initial_state_pulse".to_string(),
                    "1".to_string(),
                    "Madrid_pulse_1".to_string(),
                    "2".to_string(),
                    "Madrid_pulse_2".to_string(),
                    "Madrid_pulse_2".to_string(),
                    "4".to_string(),
                    "Madrid_pulse_2".to_string(),
                    "Madrid_pulse_1".to_string(),
                ]
            );
        }
        _ => panic!("expected a Madrid instrument"),
    }
}

#[test]
fn names_match_ignoring_case() {
    let p = program("c1", "aCmE", "1", vec![op("sum", "2"), op("dIv", "4")]);
    match ControlMaker::new_instrument(&p) {
        Ok(Instrument::Acme(a)) => {
            assert_eq!(
                a.program_code,
                vec![
                    "Acme_initial_state_pulse".to_string(),
                    "1".to_string(),
                    "Acme_pulse_1".to_string(),
                    "Acme_pulse_2".to_string(),
                    "2".to_string(),
                    "Acme_pulse_2".to_string(),
                    "Acme_pulse_2".to_string(),
                    "4".to_string(),
                ]
            );
        }
        _ => panic!("expected an Acme instrument"),
    }
}

#[test]
fn divide_by_zero_is_error() {
    let p = program("z1", "Acme", "10", vec![op("Div", "0")]);
    match ControlMaker::new_instrument(&p) {
        Err(e) => assert_eq!(e, ErrorKind::DivideByZero),
        Ok(_) => panic!("a zero divisor must fail translation"),
    }
}

#[test]
fn divide_by_zero_emits_nothing_of_that_operation() {
    let acme = Acme::new();
    let mut code: Vec<String> = Vec::new();
    let ops = vec![op("Sum", "5"), op("Div", "0"), op("Mul", "9")];
    let r = parse_operations(&acme, &mut code, &ops);
    assert_eq!(r, Err(ErrorKind::DivideByZero));
    assert_eq!(
        code,
        vec![
            "Acme_pulse_1".to_string(),
            "Acme_pulse_2".to_string(),
            "5".to_string(),
        ]
    );
}

#[test]
fn unrecognized_operation_is_error() {
    let p = program("x1", "Madrid", "3", vec![op("Frobnicate", "1")]);
    match ControlMaker::new_instrument(&p) {
        Err(e) => assert_eq!(e, ErrorKind::InvalidOperation),
        Ok(_) => panic!("an unrecognized operation must fail translation"),
    }
}

#[test]
fn resolve_matches_known_names_ignoring_case() {
    match ControlMaker::resolve("madrid") {
        Some(Instrument::Madrid(m)) => assert!(m.program_code.is_empty()),
        _ => panic!("madrid must resolve to the Madrid variant"),
    }
    match ControlMaker::resolve("ACME") {
        Some(Instrument::Acme(a)) => assert!(a.program_code.is_empty()),
        _ => panic!("ACME must resolve to the Acme variant"),
    }
    assert!(ControlMaker::resolve("Helios").is_none());
}

#[test]
fn unknown_instrument_is_error() {
    let p = program("u1", "Zenith", "3", vec![op("Sum", "1")]);
    match ControlMaker::new_instrument(&p) {
        Err(e) => assert_eq!(e, ErrorKind::UnknownBackend),
        Ok(_) => panic!("an unknown instrument name must not resolve"),
    }
}

#[test]
fn empty_instrument_name_is_error() {
    let p = program("", "", "0", Vec::new());
    match ControlMaker::new_instrument(&p) {
        Err(e) => assert_eq!(e, ErrorKind::UnknownBackend),
        Ok(_) => panic!("an empty instrument name must not resolve"),
    }
}
