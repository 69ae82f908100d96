use vstd::prelude::*;

verus! {

/// Every way a single program's run can fail. Each failure is scoped to its
/// own program: it becomes that program's result and never aborts the batch.
#[derive(Clone, Copy, Debug, PartialEq, Eq, Structural)]
pub enum ErrorKind {
    UnknownBackend,
    InvalidOperation,
    DivideByZero,
    NetworkFailure,
    MalformedResponse,
}

impl ErrorKind {
    /// The text under which the failure is reported.
    pub open spec fn spec_describe(&self) -> Seq<char> {
        match self {
            ErrorKind::UnknownBackend => "unknown backend"@,
            ErrorKind::InvalidOperation => "invalid operation"@,
            ErrorKind::DivideByZero => "divide by zero"@,
            ErrorKind::NetworkFailure => "network failure"@,
            ErrorKind::MalformedResponse => "malformed response"@,
        }
    }

    pub fn describe(&self) -> (r: String)
        ensures
            r@ == self.spec_describe(),
    {
        match self {
            ErrorKind::UnknownBackend => "unknown backend".to_owned(),
            ErrorKind::InvalidOperation => "invalid operation".to_owned(),
            ErrorKind::DivideByZero => "divide by zero".to_owned(),
            ErrorKind::NetworkFailure => "network failure".to_owned(),
            ErrorKind::MalformedResponse => "malformed response".to_owned(),
        }
    }
}

} // verus!
