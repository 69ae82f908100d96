use vstd::prelude::*;

verus! {

/// A numeric value as the instruments consume it: its decimal rendering,
/// together with whether it is zero. The backends do the arithmetic remotely;
/// this layer only embeds the rendering in instruction tokens and rejects a
/// zero divisor, so the rendering and the zero flag are all it reads.
#[derive(Clone, Debug)]
pub struct Numeric {
    pub text: String,
    pub is_zero: bool,
}

impl Numeric {
    pub fn new(text: String, is_zero: bool) -> (r: Self)
        ensures
            r.text == text,
            r.is_zero == is_zero,
    {
        Self { text, is_zero }
    }
}

/// One step of a program: an operation name (matched ignoring ASCII case
/// against the known kinds) and its operand.
#[derive(Clone, Debug)]
pub struct Operation {
    pub op_type: String,
    pub value: Numeric,
}

impl Operation {
    pub fn new(op_type: String, value: Numeric) -> (r: Self)
        ensures
            r.op_type == op_type,
            r.value == value,
    {
        Self { op_type, value }
    }
}

/// A program to run: an initial value and an ordered operation list, bound
/// for the named control instrument.
#[derive(Clone, Debug)]
pub struct QuantumProgram {
    pub id: String,
    pub control_instrument: String,
    pub initial_value: Numeric,
    pub operations: Vec<Operation>,
}

impl QuantumProgram {
    pub fn new(
        id: String,
        control_instrument: String,
        initial_value: Numeric,
        operations: Vec<Operation>,
    ) -> (r: Self)
        ensures
            r.id == id,
            r.control_instrument == control_instrument,
            r.initial_value == initial_value,
            r.operations == operations,
    {
        Self { id, control_instrument, initial_value, operations }
    }
}

} // verus!
