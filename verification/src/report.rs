use vstd::prelude::*;
use vstd::multiset::Multiset;
use vstd::relations::sorted_by;
use vstd::string::StringExecFns;

use crate::dispatch::{ExecutionResult, Outcome};
use crate::text::{lemma_lex_le_antisym, lemma_lex_le_total, lemma_lex_le_trans, lex_le,
    lex_le_exec};

verus! {

broadcast use
    vstd::seq_lib::group_to_multiset_ensures,
    vstd::multiset::group_multiset_axioms,
;

/// Results are reported in ascending lexicographic order of program id.
pub open spec fn result_le(a: ExecutionResult, b: ExecutionResult) -> bool {
    lex_le(a.program_id@, b.program_id@)
}

pub open spec fn result_order() -> spec_fn(ExecutionResult, ExecutionResult) -> bool {
    |a: ExecutionResult, b: ExecutionResult| result_le(a, b)
}

/// Orders a batch's results by program id ascending, keeping exactly the
/// results that came in: one per program, however the runs interleaved.
pub fn sort_results(results: Vec<ExecutionResult>) -> (r: Vec<ExecutionResult>)
    ensures
        sorted_by(r@, result_order()),
        r@.to_multiset() == results@.to_multiset(),
        r@.len() == results@.len(),
{
    let mut rest = results;
    let mut out: Vec<ExecutionResult> = Vec::new();
    proof {
        assert(out@.to_multiset() =~= Multiset::<ExecutionResult>::empty());
        assert(out@.to_multiset().add(rest@.to_multiset()) =~= rest@.to_multiset());
    }
    while rest.len() > 0
        invariant
            sorted_by(out@, result_order()),
            forall|k: int, l: int|
                0 <= k < out@.len() && 0 <= l < rest@.len() ==> #[trigger] result_le(
                    out@[k],
                    rest@[l],
                ),
            out@.to_multiset().add(rest@.to_multiset()) == results@.to_multiset(),
            out@.len() + rest@.len() == results@.len(),
        decreases rest.len(),
    {
        let ghost before = rest@;
        let mut m: usize = 0;
        let mut idx: usize = 1;
        proof {
            lemma_lex_le_total(rest@[0].program_id@, rest@[0].program_id@);
        }
        while idx < rest.len()
            invariant
                rest@ == before,
                0 <= m < rest@.len(),
                1 <= idx <= rest@.len(),
                forall|k: int| 0 <= k < idx ==> #[trigger] result_le(rest@[m as int], rest@[k]),
            decreases rest.len() - idx,
        {
            if lex_le_exec(rest[idx].program_id.as_str(), rest[m].program_id.as_str()) {
                proof {
                    assert forall|k: int| 0 <= k < idx + 1 implies #[trigger] result_le(
                        rest@[idx as int],
                        rest@[k],
                    ) by {
                        lemma_lex_le_total(
                            rest@[idx as int].program_id@,
                            rest@[idx as int].program_id@,
                        );
                        if k < idx {
                            assert(result_le(rest@[m as int], rest@[k]));
                            lemma_lex_le_trans(
                                rest@[idx as int].program_id@,
                                rest@[m as int].program_id@,
                                rest@[k].program_id@,
                            );
                        }
                    }
                }
                m = idx;
            } else {
                proof {
                    lemma_lex_le_total(rest@[idx as int].program_id@, rest@[m as int].program_id@);
                }
            }
            idx += 1;
        }
        let ghost out_before = out@;
        let ghost least = rest@[m as int];
        let x = rest.remove(m);
        out.push(x);
        proof {
            assert(out@ == out_before.push(least));
            assert(rest@ == before.remove(m as int));
            assert forall|i: int, j: int| 0 <= i < j < out@.len() implies #[trigger] result_order()(
                out@[i],
                out@[j],
            ) by {
                if j < out_before.len() {
                    assert(result_order()(out_before[i], out_before[j]));
                } else {
                    assert(out@[j] == least);
                    assert(result_le(out_before[i], before[m as int]));
                }
            }
            assert(sorted_by(out@, result_order()));
            assert forall|k: int, l: int|
                0 <= k < out@.len() && 0 <= l < rest@.len() implies #[trigger] result_le(
                out@[k],
                rest@[l],
            ) by {
                let lo: int = if l < m { l } else { l + 1 };
                assert(rest@[l] == before[lo]);
                if k < out_before.len() {
                    assert(result_le(out_before[k], before[lo]));
                } else {
                    assert(out@[k] == least);
                    assert(result_le(before[m as int], before[lo]));
                }
            }
            assert(out_before.push(least).to_multiset() =~= out_before.to_multiset().insert(
                least,
            ));
            assert(before.remove(m as int).to_multiset() =~= before.to_multiset().remove(
                before[m as int],
            ));
            assert(before[m as int] == least);
            assert(before.contains(least));
            assert(before.to_multiset().count(least) >= 1);
            assert(out@.to_multiset().add(rest@.to_multiset()) =~= results@.to_multiset());
        }
    }
    proof {
        assert(rest@ =~= Seq::<ExecutionResult>::empty());
        assert(rest@.to_multiset() =~= Multiset::<ExecutionResult>::empty());
        assert(out@.to_multiset() =~= results@.to_multiset());
    }
    out
}

/// Two id-sorted arrangements of the same results, no two of which share an
/// id, are the same arrangement: the report's order is settled by the ids
/// alone, not by the order in which the runs completed.
pub proof fn lemma_report_order_unique(x: Seq<ExecutionResult>, y: Seq<ExecutionResult>)
    requires
        sorted_by(x, result_order()),
        sorted_by(y, result_order()),
        x.to_multiset() == y.to_multiset(),
        forall|i: int, j: int| 0 <= i < j < x.len() ==> x[i].program_id@ != x[j].program_id@,
    ensures
        x == y,
    decreases x.len(),
{
    if x.len() == 0 {
        assert(y.to_multiset().len() == 0);
        assert(x =~= y);
    } else {
        assert(x.contains(x[0]));
        assert(x.to_multiset().count(x[0]) > 0);
        assert(y.to_multiset().count(x[0]) > 0);
        assert(y.contains(x[0]));
        assert(y.to_multiset().count(y[0]) > 0);
        assert(x.to_multiset().count(y[0]) > 0);
        assert(x.contains(y[0]));
        let i = choose|i: int| 0 <= i < x.len() && #[trigger] x[i] == y[0];
        let j = choose|j: int| 0 <= j < y.len() && #[trigger] y[j] == x[0];
        if i > 0 {
            assert(result_order()(x[0], x[i]));
            if j > 0 {
                assert(result_order()(y[0], y[j]));
            }
            lemma_lex_le_antisym(x[0].program_id@, y[0].program_id@);
            assert(x[i].program_id@ == x[0].program_id@);
            assert(false);
        }
        assert(x[0] == y[0]);
        assert(x.drop_first() =~= x.remove(0));
        assert(y.drop_first() =~= y.remove(0));
        assert(x.remove(0).to_multiset() =~= x.to_multiset().remove(x[0]));
        assert(y.remove(0).to_multiset() =~= y.to_multiset().remove(y[0]));
        let xs = x.drop_first();
        let ys = y.drop_first();
        assert forall|i2: int, j2: int| 0 <= i2 < j2 < xs.len() implies result_order()(
            xs[i2],
            xs[j2],
        ) by {
            assert(result_order()(x[i2 + 1], x[j2 + 1]));
        }
        assert forall|i2: int, j2: int| 0 <= i2 < j2 < ys.len() implies result_order()(
            ys[i2],
            ys[j2],
        ) by {
            assert(result_order()(y[i2 + 1], y[j2 + 1]));
        }
        assert forall|i2: int, j2: int|
            0 <= i2 < j2 < xs.len() implies xs[i2].program_id@ != xs[j2].program_id@ by {
            assert(x[i2 + 1].program_id@ != x[j2 + 1].program_id@);
        }
        lemma_report_order_unique(xs, ys);
        assert(x.to_multiset().len() == x.len());
        assert(y.to_multiset().len() == y.len());
        assert(x.len() == y.len());
        assert forall|k: int| 0 <= k < x.len() implies x[k] == y[k] by {
            if k > 0 {
                assert(x[k] == xs[k - 1]);
                assert(y[k] == ys[k - 1]);
            }
        }
        assert(x =~= y);
    }
}

/// The text under which one outcome is reported.
pub open spec fn spec_outcome_text(outcome: Outcome) -> Seq<char> {
    match outcome {
        Outcome::Value(v) => v@,
        Outcome::Failed(e) => e.spec_describe(),
    }
}

/// One report line: the program's id, then its value or its failure.
pub open spec fn spec_render(r: ExecutionResult) -> Seq<char> {
    r.program_id@ + ":  "@ + spec_outcome_text(r.outcome)
}

/// The lines that render a sequence of results, one each, in order.
pub open spec fn rendered(s: Seq<ExecutionResult>) -> Seq<Seq<char>> {
    Seq::new(s.len(), |i: int| spec_render(s[i]))
}

/// The texts of a sequence of lines, in order.
pub open spec fn line_views(v: Seq<String>) -> Seq<Seq<char>> {
    Seq::new(v.len(), |i: int| v[i]@)
}

pub fn render_result(result: &ExecutionResult) -> (line: String)
    ensures
        line@ == spec_render(*result),
{
    let mut line = result.program_id.clone();
    line.append(":  ");
    match &result.outcome {
        Outcome::Value(v) => line.append(v.as_str()),
        Outcome::Failed(e) => {
            let text = e.describe();
            line.append(text.as_str());
        },
    }
    proof {
        assert(line@ =~= spec_render(*result));
    }
    line
}

/// The whole report: one line per result, ordered by program id ascending,
/// exactly as many lines as results came in.
pub fn report_lines(results: Vec<ExecutionResult>) -> (lines: Vec<String>)
    ensures
        exists|s: Seq<ExecutionResult>|
            sorted_by(s, result_order()) && s.to_multiset() == results@.to_multiset()
                && lines.deep_view() == rendered(s),
        lines@.len() == results@.len(),
{
    let sorted = sort_results(results);
    let mut lines: Vec<String> = Vec::new();
    let n = sorted.len();
    proof {
        assert(line_views(lines@) =~= rendered(sorted@.take(0)));
    }
    let mut i: usize = 0;
    while i < n
        invariant
            0 <= i <= n,
            n == sorted@.len(),
            sorted_by(sorted@, result_order()),
            sorted@.to_multiset() == results@.to_multiset(),
            line_views(lines@) == rendered(sorted@.take(i as int)),
            lines@.len() == i,
        decreases n - i,
    {
        let line = render_result(&sorted[i]);
        let ghost lines_before = lines@;
        lines.push(line);
        proof {
            assert forall|k: int| 0 <= k < i + 1 implies line_views(lines@)[k] == rendered(
                sorted@.take(i + 1),
            )[k] by {
                if k < i {
                    assert(lines@[k] == lines_before[k]);
                    assert(line_views(lines_before)[k] == rendered(sorted@.take(i as int))[k]);
                }
            }
            assert(line_views(lines@) =~= rendered(sorted@.take(i + 1)));
        }
        i += 1;
    }
    proof {
        assert(sorted@.take(n as int) =~= sorted@);
        assert(lines.deep_view() =~= line_views(lines@));
        assert(lines.deep_view() == rendered(sorted@));
    }
    lines
}

} // verus!
