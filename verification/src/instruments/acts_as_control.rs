use vstd::prelude::*;

use crate::errors::error_kind::ErrorKind;
use crate::instruments::acme::Acme;
use crate::instruments::madrid::Madrid;
use crate::programs::quantum_program::{Numeric, Operation, QuantumProgram};
use crate::text::{char_matches_upper, matches_upper, matches_upper_exec};
use crate::wire::{render_wire_body, wire_body};
use vstd::string::StringExecFns;

verus! {

/// One control instrument variant: its fixed network coordinates and its
/// fixed instruction-token templates. Every template embeds the operand's
/// decimal rendering; the ordering and the marker tokens are part of the
/// variant's public contract.
pub trait ActsAsControl: Sized {
    /// The tag that names the variant on the wire and in the registry.
    spec fn tag() -> Seq<char>;

    spec fn port() -> Seq<char>;

    spec fn load_path() -> Seq<char>;

    spec fn run_path() -> Seq<char>;

    spec fn initial_tokens(value: Seq<char>) -> Seq<Seq<char>>;

    spec fn sum_tokens(value: Seq<char>) -> Seq<Seq<char>>;

    spec fn mul_tokens(value: Seq<char>) -> Seq<Seq<char>>;

    spec fn div_tokens(value: Seq<char>) -> Seq<Seq<char>>;

    fn variant_name(&self) -> (r: String)
        ensures
            r@ == Self::tag(),
    ;

    fn port_number(&self) -> (r: String)
        ensures
            r@ == Self::port(),
    ;

    fn post_url(&self) -> (r: String)
        ensures
            r@ == Self::load_path(),
    ;

    fn get_url(&self) -> (r: String)
        ensures
            r@ == Self::run_path(),
    ;

    fn set_initial(&self, program_code: &mut Vec<String>, value: &Numeric)
        ensures
            final(program_code).deep_view() == old(program_code).deep_view()
                + Self::initial_tokens(value.text@),
    ;

    fn set_sum(&self, program_code: &mut Vec<String>, value: &Numeric)
        ensures
            final(program_code).deep_view() == old(program_code).deep_view()
                + Self::sum_tokens(value.text@),
    ;

    fn set_mul(&self, program_code: &mut Vec<String>, value: &Numeric)
        ensures
            final(program_code).deep_view() == old(program_code).deep_view()
                + Self::mul_tokens(value.text@),
    ;

    fn set_div(&self, program_code: &mut Vec<String>, value: &Numeric)
        requires
            !value.is_zero,
        ensures
            final(program_code).deep_view() == old(program_code).deep_view()
                + Self::div_tokens(value.text@),
    ;
}

/// The tokens one operation emits for variant `T`, or the failure it raises:
/// an unrecognized operation name is invalid, and a zero divisor is rejected
/// before any token of that operation is produced.
pub open spec fn op_tokens<T: ActsAsControl>(op: Operation) -> Result<Seq<Seq<char>>, ErrorKind> {
    if matches_upper(op.op_type@, "SUM"@) {
        Ok(T::sum_tokens(op.value.text@))
    } else if matches_upper(op.op_type@, "MUL"@) {
        Ok(T::mul_tokens(op.value.text@))
    } else if matches_upper(op.op_type@, "DIV"@) {
        if op.value.is_zero {
            Err(ErrorKind::DivideByZero)
        } else {
            Ok(T::div_tokens(op.value.text@))
        }
    } else {
        Err(ErrorKind::InvalidOperation)
    }
}

/// The tokens emitted by the longest prefix of valid operations: a failing
/// operation contributes nothing, and nothing after it is emitted.
pub open spec fn ops_emitted<T: ActsAsControl>(ops: Seq<Operation>) -> Seq<Seq<char>>
    decreases ops.len(),
{
    if ops.len() == 0 {
        Seq::empty()
    } else {
        match op_tokens::<T>(ops[0]) {
            Ok(ts) => ts + ops_emitted::<T>(ops.drop_first()),
            Err(_) => Seq::empty(),
        }
    }
}

/// The first failure among the operations, if any.
pub open spec fn ops_error<T: ActsAsControl>(ops: Seq<Operation>) -> Option<ErrorKind>
    decreases ops.len(),
{
    if ops.len() == 0 {
        None
    } else {
        match op_tokens::<T>(ops[0]) {
            Ok(_) => ops_error::<T>(ops.drop_first()),
            Err(e) => Some(e),
        }
    }
}

/// What translating a whole program for variant `T` yields: the initial
/// tokens followed by each operation's tokens in input order, or the first
/// per-program failure.
pub open spec fn spec_translate<T: ActsAsControl>(program: QuantumProgram) -> Result<
    Seq<Seq<char>>,
    ErrorKind,
> {
    match ops_error::<T>(program.operations@) {
        Some(e) => Err(e),
        None => Ok(
            T::initial_tokens(program.initial_value.text@) + ops_emitted::<T>(
                program.operations@,
            ),
        ),
    }
}

/// Splitting the operation list after a valid prefix splits what it emits.
proof fn lemma_ops_split<T: ActsAsControl>(ops: Seq<Operation>, i: int)
    requires
        0 <= i <= ops.len(),
        ops_error::<T>(ops.take(i)) is None,
    ensures
        ops_error::<T>(ops) == ops_error::<T>(ops.skip(i)),
        ops_emitted::<T>(ops) == ops_emitted::<T>(ops.take(i)) + ops_emitted::<T>(ops.skip(i)),
    decreases i,
{
    if i == 0 {
        assert(ops.skip(0) =~= ops);
        assert(ops_emitted::<T>(ops.take(0)) + ops_emitted::<T>(ops) =~= ops_emitted::<T>(ops));
    } else {
        let rest = ops.drop_first();
        assert(ops.take(i)[0] == ops[0]);
        assert(ops.take(i).drop_first() =~= rest.take(i - 1));
        lemma_ops_split::<T>(rest, i - 1);
        assert(rest.skip(i - 1) =~= ops.skip(i));
        match op_tokens::<T>(ops[0]) {
            Ok(ts) => {
                assert(ops_emitted::<T>(ops) =~= ts + ops_emitted::<T>(rest.take(i - 1))
                    + ops_emitted::<T>(ops.skip(i)));
                assert(ops_emitted::<T>(ops.take(i)) =~= ts + ops_emitted::<T>(rest.take(i - 1)));
            },
            Err(_) => {
                assert(false);
            },
        }
    }
}

/// A valid operation at the end of a valid prefix extends what is emitted.
proof fn lemma_ops_step<T: ActsAsControl>(ops: Seq<Operation>, i: int)
    requires
        0 <= i < ops.len(),
        ops_error::<T>(ops.take(i)) is None,
        op_tokens::<T>(ops[i]) is Ok,
    ensures
        ops_error::<T>(ops.take(i + 1)) is None,
        ops_emitted::<T>(ops.take(i + 1)) == ops_emitted::<T>(ops.take(i)) + op_tokens::<T>(
            ops[i],
        )->Ok_0,
{
    let front = ops.take(i + 1);
    assert(front.take(i) =~= ops.take(i));
    lemma_ops_split::<T>(front, i);
    assert(front.skip(i) =~= seq![ops[i]]);
    let single = seq![ops[i]];
    assert(single[0] == ops[i]);
    assert(single.drop_first() =~= Seq::<Operation>::empty());
    assert(ops_emitted::<T>(Seq::<Operation>::empty()) =~= Seq::<Seq<char>>::empty());
    assert(ops_error::<T>(Seq::<Operation>::empty()) is None);
    assert(ops_emitted::<T>(single) =~= op_tokens::<T>(ops[i])->Ok_0);
    assert(ops_error::<T>(single) is None);
    assert(ops_emitted::<T>(front) =~= ops_emitted::<T>(ops.take(i)) + op_tokens::<T>(
        ops[i],
    )->Ok_0);
}

/// Translation raises only its own failures: a divide by zero or an invalid
/// operation, never a resolution or network failure.
proof fn lemma_ops_error_own<T: ActsAsControl>(ops: Seq<Operation>)
    ensures
        ops_error::<T>(ops) is Some ==> ops_error::<T>(ops) == Some(ErrorKind::DivideByZero)
            || ops_error::<T>(ops) == Some(ErrorKind::InvalidOperation),
    decreases ops.len(),
{
    if ops.len() != 0 {
        lemma_ops_error_own::<T>(ops.drop_first());
    }
}

/// A prefix of operations that each translate cleanly raises no failure.
proof fn lemma_ops_prefix_clean<T: ActsAsControl>(ops: Seq<Operation>, i: int)
    requires
        0 <= i <= ops.len(),
        forall|j: int| 0 <= j < i ==> #[trigger] op_tokens::<T>(ops[j]) is Ok,
    ensures
        ops_error::<T>(ops.take(i)) is None,
    decreases i,
{
    if i > 0 {
        let rest = ops.drop_first();
        assert(op_tokens::<T>(ops[0]) is Ok);
        assert(ops.take(i)[0] == ops[0]);
        assert(ops.take(i).drop_first() =~= rest.take(i - 1));
        assert forall|j: int| 0 <= j < i - 1 implies #[trigger] op_tokens::<T>(rest[j]) is Ok by {
            assert(op_tokens::<T>(ops[j + 1]) is Ok);
        }
        lemma_ops_prefix_clean::<T>(rest, i - 1);
    }
}

/// A divide operation with a zero operand fails the program before any token
/// of that operation is emitted: with every earlier operation valid, what is
/// emitted is exactly what the operations before it emit, and the program's
/// failure is the divide by zero.
pub proof fn lemma_divide_by_zero_emits_nothing<T: ActsAsControl>(ops: Seq<Operation>, i: int)
    requires
        0 <= i < ops.len(),
        forall|j: int| 0 <= j < i ==> #[trigger] op_tokens::<T>(ops[j]) is Ok,
        matches_upper(ops[i].op_type@, "DIV"@),
        ops[i].value.is_zero,
    ensures
        ops_error::<T>(ops) == Some(ErrorKind::DivideByZero),
        ops_emitted::<T>(ops) == ops_emitted::<T>(ops.take(i)),
{
    lemma_ops_prefix_clean::<T>(ops, i);
    lemma_ops_split::<T>(ops, i);
    assert(ops.skip(i)[0] == ops[i]);
    reveal_strlit("SUM");
    reveal_strlit("MUL");
    reveal_strlit("DIV");
    let s = ops[i].op_type@;
    assert(char_matches_upper(s[0], "DIV"@[0]));
    if matches_upper(s, "SUM"@) {
        assert(char_matches_upper(s[0], "SUM"@[0]));
        assert(false);
    }
    if matches_upper(s, "MUL"@) {
        assert(char_matches_upper(s[0], "MUL"@[0]));
        assert(false);
    }
    assert(op_tokens::<T>(ops[i]) == Err::<Seq<Seq<char>>, ErrorKind>(ErrorKind::DivideByZero));
    assert(ops_emitted::<T>(ops.skip(i)) =~= Seq::<Seq<char>>::empty());
    assert(ops_emitted::<T>(ops) =~= ops_emitted::<T>(ops.take(i)));
}

/// A program whose instrument is recognized and whose operations are all
/// valid translates to a sequence that is never empty: it opens with the
/// variant's two initial tokens, and each operation's tokens follow in input
/// order.
pub proof fn lemma_translate_nonempty(program: QuantumProgram)
    requires
        matches_upper(program.control_instrument@, "ACME"@) ==> ops_error::<Acme>(
            program.operations@,
        ) is None,
        matches_upper(program.control_instrument@, "MADRID"@) ==> ops_error::<Madrid>(
            program.operations@,
        ) is None,
        matches_upper(program.control_instrument@, "ACME"@) || matches_upper(
            program.control_instrument@,
            "MADRID"@,
        ),
    ensures
        matches_upper(program.control_instrument@, "ACME"@) ==> spec_translate::<Acme>(program)
            is Ok && spec_translate::<Acme>(program)->Ok_0.len() >= 2 && spec_translate::<Acme>(
            program,
        )->Ok_0.take(2) == <Acme as ActsAsControl>::initial_tokens(program.initial_value.text@),
        matches_upper(program.control_instrument@, "MADRID"@) ==> spec_translate::<Madrid>(program)
            is Ok && spec_translate::<Madrid>(program)->Ok_0.len() >= 2 && spec_translate::<
            Madrid,
        >(program)->Ok_0.take(2) == <Madrid as ActsAsControl>::initial_tokens(
            program.initial_value.text@,
        ),
{
    if matches_upper(program.control_instrument@, "ACME"@) {
        let head = <Acme as ActsAsControl>::initial_tokens(program.initial_value.text@);
        let whole = head + ops_emitted::<Acme>(program.operations@);
        assert(whole.take(2) =~= head);
    }
    if matches_upper(program.control_instrument@, "MADRID"@) {
        let head = <Madrid as ActsAsControl>::initial_tokens(program.initial_value.text@);
        let whole = head + ops_emitted::<Madrid>(program.operations@);
        assert(whole.take(2) =~= head);
    }
}

/// Folds the operations in input order onto `program_code`, dispatching each
/// to the variant's matching template; stops at the first failing operation,
/// leaving the tokens of the valid prefix and nothing of the failing one.
pub fn parse_operations<T: ActsAsControl>(
    instrument: &T,
    program_code: &mut Vec<String>,
    operations: &Vec<Operation>,
) -> (r: Result<(), ErrorKind>)
    ensures
        final(program_code).deep_view() == old(program_code).deep_view() + ops_emitted::<T>(
            operations@,
        ),
        r == match ops_error::<T>(operations@) {
            None => Result::<(), ErrorKind>::Ok(()),
            Some(e) => Result::<(), ErrorKind>::Err(e),
        },
{
    let ghost ops = operations@;
    let mut i: usize = 0;
    proof {
        assert(ops.take(0) =~= Seq::<Operation>::empty());
        assert(program_code.deep_view() =~= old(program_code).deep_view() + ops_emitted::<T>(
            ops.take(0),
        ));
    }
    while i < operations.len()
        invariant
            0 <= i <= ops.len(),
            ops == operations@,
            ops_error::<T>(ops.take(i as int)) is None,
            program_code.deep_view() == old(program_code).deep_view() + ops_emitted::<T>(
                ops.take(i as int),
            ),
        decreases ops.len() - i,
    {
        let operation = &operations[i];
        if matches_upper_exec(operation.op_type.as_str(), "SUM") {
            instrument.set_sum(program_code, &operation.value);
            proof {
                lemma_ops_step::<T>(ops, i as int);
            }
        } else if matches_upper_exec(operation.op_type.as_str(), "MUL") {
            instrument.set_mul(program_code, &operation.value);
            proof {
                lemma_ops_step::<T>(ops, i as int);
            }
        } else if matches_upper_exec(operation.op_type.as_str(), "DIV") {
            if operation.value.is_zero {
                proof {
                    lemma_ops_split::<T>(ops, i as int);
                    assert(ops.skip(i as int)[0] == ops[i as int]);
                    assert(ops_emitted::<T>(ops.skip(i as int)) =~= Seq::<Seq<char>>::empty());
                    assert(program_code.deep_view() =~= old(program_code).deep_view()
                        + ops_emitted::<T>(ops));
                }
                return Err(ErrorKind::DivideByZero);
            }
            instrument.set_div(program_code, &operation.value);
            proof {
                lemma_ops_step::<T>(ops, i as int);
            }
        } else {
            proof {
                lemma_ops_split::<T>(ops, i as int);
                assert(ops.skip(i as int)[0] == ops[i as int]);
                assert(ops_emitted::<T>(ops.skip(i as int)) =~= Seq::<Seq<char>>::empty());
                assert(program_code.deep_view() =~= old(program_code).deep_view()
                    + ops_emitted::<T>(ops));
            }
            return Err(ErrorKind::InvalidOperation);
        }
        i += 1;
    }
    proof {
        assert(ops.take(ops.len() as int) =~= ops);
    }
    Ok(())
}

/// The opening instruction tokens that encode the program's starting value.
pub fn initialize_program_code<T: ActsAsControl>(instrument: &T, initial_value: &Numeric) -> (r:
    Vec<String>)
    ensures
        r.deep_view() == T::initial_tokens(initial_value.text@),
{
    let mut initial_code: Vec<String> = Vec::new();
    proof {
        assert(initial_code.deep_view() =~= Seq::<Seq<char>>::empty());
    }
    instrument.set_initial(&mut initial_code, initial_value);
    proof {
        assert(initial_code.deep_view() =~= T::initial_tokens(initial_value.text@));
    }
    initial_code
}

/// Compiles a whole program for variant `T`: the initial tokens, then each
/// operation's tokens in input order; the first failing operation aborts
/// translation of this program only.
pub fn translate<T: ActsAsControl>(instrument: &T, program: &QuantumProgram) -> (r: Result<
    Vec<String>,
    ErrorKind,
>)
    ensures
        match r {
            Ok(code) => spec_translate::<T>(*program) == Ok::<Seq<Seq<char>>, ErrorKind>(
                code.deep_view(),
            ),
            Err(e) => spec_translate::<T>(*program) == Err::<Seq<Seq<char>>, ErrorKind>(e),
        },
{
    let mut program_code = initialize_program_code(instrument, &program.initial_value);
    match parse_operations(instrument, &mut program_code, &program.operations) {
        Ok(()) => Ok(program_code),
        Err(e) => Err(e),
    }
}

/// A resolved instrument, loaded with the instruction sequence compiled for
/// it. The sequence is always produced by the variant that will consume it.
pub enum Instrument {
    Acme(Acme),
    Madrid(Madrid),
}

impl Instrument {
    /// The tag of the variant that compiled this instrument's sequence.
    pub open spec fn spec_tag(&self) -> Seq<char> {
        match self {
            Instrument::Acme(_) => <Acme as ActsAsControl>::tag(),
            Instrument::Madrid(_) => <Madrid as ActsAsControl>::tag(),
        }
    }

    /// The loaded instruction sequence.
    pub open spec fn spec_code(&self) -> Seq<Seq<char>> {
        match self {
            Instrument::Acme(a) => a.program_code.deep_view(),
            Instrument::Madrid(m) => m.program_code.deep_view(),
        }
    }

    pub open spec fn spec_port(&self) -> Seq<char> {
        match self {
            Instrument::Acme(_) => <Acme as ActsAsControl>::port(),
            Instrument::Madrid(_) => <Madrid as ActsAsControl>::port(),
        }
    }

    pub open spec fn spec_load_path(&self) -> Seq<char> {
        match self {
            Instrument::Acme(_) => <Acme as ActsAsControl>::load_path(),
            Instrument::Madrid(_) => <Madrid as ActsAsControl>::load_path(),
        }
    }

    pub open spec fn spec_run_path(&self) -> Seq<char> {
        match self {
            Instrument::Acme(_) => <Acme as ActsAsControl>::run_path(),
            Instrument::Madrid(_) => <Madrid as ActsAsControl>::run_path(),
        }
    }

    /// Where the load step posts: the variant's address and load path.
    pub open spec fn spec_load_url(&self) -> Seq<char> {
        "http://127.0.0.1:"@ + self.spec_port() + "/"@ + self.spec_load_path()
    }

    /// Where the run step fetches: the variant's address and run path, under
    /// the job handle the load step returned.
    pub open spec fn spec_run_url(&self, job_id: Seq<char>) -> Seq<char> {
        "http://127.0.0.1:"@ + self.spec_port() + "/"@ + self.spec_run_path() + "/"@ + job_id
    }

    pub fn load_url(&self) -> (r: String)
        ensures
            r@ == self.spec_load_url(),
    {
        let mut url = "http://127.0.0.1:".to_owned();
        match self {
            Instrument::Acme(a) => {
                let port = a.port_number();
                url.append(port.as_str());
                url.append("/");
                let path = a.post_url();
                url.append(path.as_str());
            },
            Instrument::Madrid(m) => {
                let port = m.port_number();
                url.append(port.as_str());
                url.append("/");
                let path = m.post_url();
                url.append(path.as_str());
            },
        }
        proof {
            assert(url@ =~= self.spec_load_url());
        }
        url
    }

    pub fn run_url(&self, post_response: &PostResponse) -> (r: String)
        ensures
            r@ == self.spec_run_url(post_response.program_id@),
    {
        let mut url = "http://127.0.0.1:".to_owned();
        match self {
            Instrument::Acme(a) => {
                let port = a.port_number();
                url.append(port.as_str());
                url.append("/");
                let path = a.get_url();
                url.append(path.as_str());
            },
            Instrument::Madrid(m) => {
                let port = m.port_number();
                url.append(port.as_str());
                url.append("/");
                let path = m.get_url();
                url.append(path.as_str());
            },
        }
        url.append("/");
        url.append(post_response.program_id.as_str());
        proof {
            assert(url@ =~= self.spec_run_url(post_response.program_id@));
        }
        url
    }

    /// The load request's body: the loaded sequence in its tagged envelope,
    /// framed for the same variant whose endpoint `load_url` names.
    pub fn load_body(&self) -> (r: String)
        ensures
            r@ == wire_body(self.spec_tag(), self.spec_code()),
    {
        match self {
            Instrument::Acme(a) => {
                let tag = a.variant_name();
                render_wire_body(tag.as_str(), &a.program_code)
            },
            Instrument::Madrid(m) => {
                let tag = m.variant_name();
                render_wire_body(tag.as_str(), &m.program_code)
            },
        }
    }
}

/// The registry: resolves a program's instrument name, ignoring ASCII case,
/// to the matching variant and compiles the program for it.
pub struct ControlMaker {}

impl ControlMaker {
    /// Resolves an instrument name, ignoring ASCII case, to its variant with
    /// an empty sequence; an unknown name is a recoverable not-found outcome,
    /// never a failure of the process.
    pub fn resolve(name: &str) -> (r: Option<Instrument>)
        ensures
            match r {
                Some(Instrument::Acme(a)) => matches_upper(name@, "ACME"@)
                    && a.program_code.deep_view() == Seq::<Seq<char>>::empty(),
                Some(Instrument::Madrid(m)) => matches_upper(name@, "MADRID"@)
                    && m.program_code.deep_view() == Seq::<Seq<char>>::empty(),
                None => !matches_upper(name@, "ACME"@) && !matches_upper(name@, "MADRID"@),
            },
    {
        if matches_upper_exec(name, "ACME") {
            Some(Instrument::Acme(Acme::new()))
        } else if matches_upper_exec(name, "MADRID") {
            Some(Instrument::Madrid(Madrid::new()))
        } else {
            None
        }
    }

    /// Resolution and translation for one program. An unrecognized name and
    /// a failing operation each yield this program's own failure; nothing
    /// here ends the batch.
    pub fn new_instrument(program: &QuantumProgram) -> (r: Result<Instrument, ErrorKind>)
        ensures
            match r {
                Ok(Instrument::Acme(a)) => matches_upper(program.control_instrument@, "ACME"@)
                    && spec_translate::<Acme>(*program) == Ok::<Seq<Seq<char>>, ErrorKind>(
                    a.program_code.deep_view(),
                ),
                Ok(Instrument::Madrid(m)) => matches_upper(program.control_instrument@, "MADRID"@)
                    && spec_translate::<Madrid>(*program) == Ok::<Seq<Seq<char>>, ErrorKind>(
                    m.program_code.deep_view(),
                ),
                Err(ErrorKind::UnknownBackend) => !matches_upper(
                    program.control_instrument@,
                    "ACME"@,
                ) && !matches_upper(program.control_instrument@, "MADRID"@),
                Err(e) => (matches_upper(program.control_instrument@, "ACME"@)
                    && spec_translate::<Acme>(*program) == Err::<Seq<Seq<char>>, ErrorKind>(e)) || (
                matches_upper(program.control_instrument@, "MADRID"@) && spec_translate::<Madrid>(
                    *program,
                ) == Err::<Seq<Seq<char>>, ErrorKind>(e)),
            },
    {
        match Self::resolve(program.control_instrument.as_str()) {
            Some(Instrument::Acme(mut instrument)) => match translate(&instrument, program) {
                Ok(code) => {
                    instrument.program_code = code;
                    Ok(Instrument::Acme(instrument))
                },
                Err(e) => {
                    proof {
                        lemma_ops_error_own::<Acme>(program.operations@);
                    }
                    Err(e)
                },
            },
            Some(Instrument::Madrid(mut instrument)) => match translate(&instrument, program) {
                Ok(code) => {
                    instrument.program_code = code;
                    Ok(Instrument::Madrid(instrument))
                },
                Err(e) => {
                    proof {
                        lemma_ops_error_own::<Madrid>(program.operations@);
                    }
                    Err(e)
                },
            },
            None => Err(ErrorKind::UnknownBackend),
        }
    }
}

/// What a successful load step returns: the job handle under which the run
/// step executes the loaded sequence.
#[derive(Debug)]
pub struct PostResponse {
    pub program_id: String,
}

/// What a successful run step returns: the numeric result, as its decimal
/// rendering.
#[derive(Debug)]
pub struct GetResponse {
    pub result: String,
}

} // verus!
