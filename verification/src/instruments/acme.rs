use vstd::prelude::*;

use crate::instruments::acts_as_control::ActsAsControl;
use crate::programs::quantum_program::Numeric;

verus! {

/// The Acme control instrument: markers lead, the operand's rendering ends
/// each pattern.
pub struct Acme {
    pub program_code: Vec<String>,
}

impl Acme {
    pub fn new() -> (r: Self)
        ensures
            r.program_code.deep_view() == Seq::<Seq<char>>::empty(),
    {
        let r = Self { program_code: Vec::new() };
        proof {
            assert(r.program_code.deep_view() =~= Seq::<Seq<char>>::empty());
        }
        r
    }
}

impl ActsAsControl for Acme {
    open spec fn tag() -> Seq<char> {
        "Acme"@
    }

    open spec fn port() -> Seq<char> {
        "8001"@
    }

    open spec fn load_path() -> Seq<char> {
        "load_program"@
    }

    open spec fn run_path() -> Seq<char> {
        "run_program"@
    }

    open spec fn initial_tokens(value: Seq<char>) -> Seq<Seq<char>> {
        seq!["Acme_initial_state_pulse"@, value]
    }

    open spec fn sum_tokens(value: Seq<char>) -> Seq<Seq<char>> {
        seq!["Acme_pulse_1"@, "Acme_pulse_2"@, value]
    }

    open spec fn mul_tokens(value: Seq<char>) -> Seq<Seq<char>> {
        seq!["Acme_pulse_2"@, "Acme_pulse_1"@, "Acme_pulse_1"@, value]
    }

    open spec fn div_tokens(value: Seq<char>) -> Seq<Seq<char>> {
        seq!["Acme_pulse_2"@, "Acme_pulse_2"@, value]
    }

    fn variant_name(&self) -> (r: String) {
        "Acme".to_owned()
    }

    fn port_number(&self) -> (r: String) {
        "8001".to_owned()
    }

    fn post_url(&self) -> (r: String) {
        "load_program".to_owned()
    }

    fn get_url(&self) -> (r: String) {
        "run_program".to_owned()
    }

    fn set_initial(&self, program_code: &mut Vec<String>, value: &Numeric) {
        program_code.push("Acme_initial_state_pulse".to_owned());
        program_code.push(value.text.clone());
        proof {
            assert(program_code.deep_view() =~= old(program_code).deep_view()
                + Self::initial_tokens(value.text@));
        }
    }

    fn set_sum(&self, program_code: &mut Vec<String>, value: &Numeric) {
        program_code.push("Acme_pulse_1".to_owned());
        program_code.push("Acme_pulse_2".to_owned());
        program_code.push(value.text.clone());
        proof {
            assert(program_code.deep_view() =~= old(program_code).deep_view() + Self::sum_tokens(
                value.text@,
            ));
        }
    }

    fn set_mul(&self, program_code: &mut Vec<String>, value: &Numeric) {
        program_code.push("Acme_pulse_2".to_owned());
        program_code.push("Acme_pulse_1".to_owned());
        program_code.push("Acme_pulse_1".to_owned());
        program_code.push(value.text.clone());
        proof {
            assert(program_code.deep_view() =~= old(program_code).deep_view() + Self::mul_tokens(
                value.text@,
            ));
        }
    }

    fn set_div(&self, program_code: &mut Vec<String>, value: &Numeric) {
        program_code.push("Acme_pulse_2".to_owned());
        program_code.push("Acme_pulse_2".to_owned());
        program_code.push(value.text.clone());
        proof {
            assert(program_code.deep_view() =~= old(program_code).deep_view() + Self::div_tokens(
                value.text@,
            ));
        }
    }
}

} // verus!
