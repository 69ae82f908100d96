use vstd::prelude::*;

verus! {

/// The error raised when an operation name matches none of the known kinds.
#[derive(Clone, Copy, Debug)]
pub struct InvalidOperationError;

impl InvalidOperationError {
    /// The message the error carries.
    pub fn message(&self) -> (r: String)
        ensures
            r@ == "An invalid operation was passed when parsing the input JSON data."@,
    {
        "An invalid operation was passed when parsing the input JSON data.".to_owned()
    }
}

} // verus!
