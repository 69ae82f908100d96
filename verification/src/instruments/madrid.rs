use vstd::prelude::*;

use crate::instruments::acts_as_control::ActsAsControl;
use crate::programs::quantum_program::Numeric;

verus! {

/// The Madrid control instrument: the operand's rendering leads, markers
/// follow.
pub struct Madrid {
    pub program_code: Vec<String>,
}

impl Madrid {
    pub fn new() -> (r: Self)
        ensures
            r.program_code.deep_view() == Seq::<Seq<char>>::empty(),
    {
        let r = Self { program_code: Vec::new() };
        proof {
            assert(r.program_code.deep_view() =~= Seq::<Seq<char>>::empty());
        }
        r
    }
}

impl ActsAsControl for Madrid {
    open spec fn tag() -> Seq<char> {
        "Madrid"@
    }

    open spec fn port() -> Seq<char> {
        "8000"@
    }

    open spec fn load_path() -> Seq<char> {
        "program/load"@
    }

    open spec fn run_path() -> Seq<char> {
        "program/run"@
    }

    open spec fn initial_tokens(value: Seq<char>) -> Seq<Seq<char>> {
        seq![value, "Madrid_initial_state_pulse"@]
    }

    open spec fn sum_tokens(value: Seq<char>) -> Seq<Seq<char>> {
        seq![value, "Madrid_pulse_1"@]
    }

    open spec fn mul_tokens(value: Seq<char>) -> Seq<Seq<char>> {
        seq![value, "Madrid_pulse_2"@, "Madrid_pulse_2"@]
    }

    open spec fn div_tokens(value: Seq<char>) -> Seq<Seq<char>> {
        seq![value, "Madrid_pulse_2"@, "Madrid_pulse_1"@]
    }

    fn variant_name(&self) -> (r: String) {
        "Madrid".to_owned()
    }

    fn port_number(&self) -> (r: String) {
        "8000".to_owned()
    }

    fn post_url(&self) -> (r: String) {
        "program/load".to_owned()
    }

    fn get_url(&self) -> (r: String) {
        "program/run".to_owned()
    }

    fn set_initial(&self, program_code: &mut Vec<String>, value: &Numeric) {
        program_code.push(value.text.clone());
        program_code.push("Madrid_initial_state_pulse".to_owned());
        proof {
            assert(program_code.deep_view() =~= old(program_code).deep_view()
                + Self::initial_tokens(value.text@));
        }
    }

    fn set_sum(&self, program_code: &mut Vec<String>, value: &Numeric) {
        program_code.push(value.text.clone());
        program_code.push("Madrid_pulse_1".to_owned());
        proof {
            assert(program_code.deep_view() =~= old(program_code).deep_view() + Self::sum_tokens(
                value.text@,
            ));
        }
    }

    fn set_mul(&self, program_code: &mut Vec<String>, value: &Numeric) {
        program_code.push(value.text.clone());
        program_code.push("Madrid_pulse_2".to_owned());
        program_code.push("Madrid_pulse_2".to_owned());
        proof {
            assert(program_code.deep_view() =~= old(program_code).deep_view() + Self::mul_tokens(
                value.text@,
            ));
        }
    }

    fn set_div(&self, program_code: &mut Vec<String>, value: &Numeric) {
        program_code.push(value.text.clone());
        program_code.push("Madrid_pulse_2".to_owned());
        program_code.push("Madrid_pulse_1".to_owned());
        proof {
            assert(program_code.deep_view() =~= old(program_code).deep_view() + Self::div_tokens(
                value.text@,
            ));
        }
    }
}

} // verus!
