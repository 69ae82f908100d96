use vstd::prelude::*;

use crate::errors::error_kind::ErrorKind;
use crate::instruments::acts_as_control::{GetResponse, Instrument, PostResponse};

verus! {

/// How one network step can fail: the call did not complete, or what came
/// back lacked the required field or shape.
#[derive(Clone, Copy, Debug, PartialEq, Eq, Structural)]
pub enum WireFault {
    Connection,
    BadPayload,
}

/// The failure a program reports for each kind of wire fault.
pub open spec fn spec_fault_error(f: WireFault) -> ErrorKind {
    match f {
        WireFault::Connection => ErrorKind::NetworkFailure,
        WireFault::BadPayload => ErrorKind::MalformedResponse,
    }
}

pub fn fault_error(f: &WireFault) -> (r: ErrorKind)
    ensures
        r == spec_fault_error(*f),
{
    match f {
        WireFault::Connection => ErrorKind::NetworkFailure,
        WireFault::BadPayload => ErrorKind::MalformedResponse,
    }
}

/// What one program's run came to: its numeric result, as its decimal
/// rendering, or its own failure.
#[derive(Debug, PartialEq)]
pub enum Outcome {
    Value(String),
    Failed(ErrorKind),
}

/// The one result every program yields by the time the batch completes,
/// whether its run succeeded or failed.
#[derive(Debug, PartialEq)]
pub struct ExecutionResult {
    pub program_id: String,
    pub outcome: Outcome,
}

impl ExecutionResult {
    pub fn failure(program_id: String, error: ErrorKind) -> (r: Self)
        ensures
            r.program_id == program_id,
            r.outcome == Outcome::Failed(error),
    {
        Self { program_id, outcome: Outcome::Failed(error) }
    }

    pub fn success(program_id: String, value: String) -> (r: Self)
        ensures
            r.program_id == program_id,
            r.outcome == Outcome::Value(value),
    {
        Self { program_id, outcome: Outcome::Value(value) }
    }
}

/// The decision after the load step: a job handle leads to the run step's
/// URL on the same instrument, a fault ends this program's run with its own
/// failure. The run step cannot be reached without the handle the load step
/// returned.
pub fn after_load(instrument: &Instrument, response: Result<PostResponse, WireFault>) -> (r: Result<
    String,
    ErrorKind,
>)
    ensures
        match response {
            Ok(p) => r is Ok && r->Ok_0@ == instrument.spec_run_url(p.program_id@),
            Err(f) => r == Err::<String, ErrorKind>(spec_fault_error(f)),
        },
{
    match response {
        Ok(p) => Ok(instrument.run_url(&p)),
        Err(f) => Err(fault_error(&f)),
    }
}

/// The decision after the run step: the response's result value becomes the
/// program's result, a fault becomes its failure. Either way this program
/// yields exactly one result.
pub fn after_run(program_id: String, response: Result<GetResponse, WireFault>) -> (r:
    ExecutionResult)
    ensures
        r.program_id == program_id,
        match response {
            Ok(g) => r.outcome == Outcome::Value(g.result),
            Err(f) => r.outcome == Outcome::Failed(spec_fault_error(f)),
        },
{
    match response {
        Ok(g) => ExecutionResult::success(program_id, g.result),
        Err(f) => ExecutionResult::failure(program_id, fault_error(&f)),
    }
}

} // verus!
