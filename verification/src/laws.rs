//! Laws of the evaluator, stated over `eval`.

use vstd::prelude::*;
use vstd::set_lib::lemma_len_subset;
use vstd::set_lib::lemma_subset_equality;
use crate::ast::leaves;
use crate::ast::leaves_all;
use crate::ast::Node;
use crate::ast::NodeView;
use crate::atom::eval_atom;
use crate::atom::mismatch_at;
use crate::atom::AtomView;
use crate::error::merge_errors;
use crate::error::Error;
use crate::error::ErrorKind;
use crate::error::ErrorView;
use crate::expression::ExprView;
use crate::parse_spec;
use crate::parse_strict_spec;
use crate::parse_symbol_spec;
use crate::semantics::eval;
use crate::semantics::eval_and;
use crate::semantics::eval_or;
use crate::semantics::eval_repeat;
use crate::semantics::Parsed;
use crate::text::position_at;
use crate::tree_result_is;
use crate::text::lemma_position_offset;
use crate::tree_laws::lemma_compact_leaves;
use crate::tree_laws::lemma_leaves_add;
use crate::tree_laws::lemma_leaves_one;

verus! {

// ---------------------------------------------------------------------------
// One text and one rule set, one result

/// Whether two results hold the same tree or the same error.
pub open spec fn same_outcome(a: Result<Node, Error>, b: Result<Node, Error>) -> bool {
    match a {
        Ok(x) => b matches Ok(y) && x@ == y@,
        Err(x) => b matches Err(y) && x@ == y@,
    }
}

/// Parsing is a function of the text and the rule set: any two results of
/// `parse` for one text and one rule set hold the same tree or the same error.
pub proof fn lemma_parse_deterministic(
    first: Result<Node, Error>,
    second: Result<Node, Error>,
    text: Seq<char>,
    rules: Map<Seq<char>, ExprView>,
)
    requires
        tree_result_is(first, parse_spec(text, rules)),
        tree_result_is(second, parse_spec(text, rules)),
    ensures
        same_outcome(first, second),
{
}

// ---------------------------------------------------------------------------
// What a successful evaluation consumed is what its leaves hold

proof fn lemma_mismatch_range(lit: Seq<char>, text: Seq<char>, n: int, i: int)
    requires
        0 <= i <= lit.len(),
        0 <= n,
    ensures
        i <= mismatch_at(lit, text, n, i) <= lit.len(),
        n + mismatch_at(lit, text, n, i) <= text.len() || mismatch_at(lit, text, n, i) == i,
        forall|j: int|
            i <= j < mismatch_at(lit, text, n, i) ==> n + j < text.len() && lit[j] == text[n + j],
    decreases lit.len() - i,
{
    if 0 <= i < lit.len() && 0 <= n + i < text.len() && lit[i] == text[n + i] {
        lemma_mismatch_range(lit, text, n, i + 1);
    }
}

/// A terminal that matches at offset `n` captures the text from `n` to the
/// offset it returns, and stays inside the text.
pub proof fn lemma_eval_atom_span(text: Seq<char>, atom: AtomView, n: int)
    requires
        0 <= n <= text.len(),
    ensures
        eval_atom(text, atom, n) matches Ok((end, captured)) ==> n <= end <= text.len()
            && captured == text.subrange(n, end),
{
    match atom {
        AtomView::Literal(lit) => {
            lemma_mismatch_range(lit, text, n, 0);
            if mismatch_at(lit, text, n, 0) == lit.len() {
                assert(lit =~= text.subrange(n, n + lit.len()));
            }
        },
        AtomView::Dot => {
            if n < text.len() {
                assert(seq![text[n]] =~= text.subrange(n, n + 1));
            }
        },
        AtomView::Match(_) => {
            if n < text.len() {
                assert(seq![text[n]] =~= text.subrange(n, n + 1));
            }
        },
    }
}

/// An expression that succeeds at offset `n` ends at an offset between `n` and
/// the end of the text, and the leaves of its nodes are the text in between.
pub proof fn lemma_eval_span(
    rules: Map<Seq<char>, ExprView>,
    text: Seq<char>,
    limit: nat,
    budget: nat,
    e: ExprView,
    n: int,
)
    requires
        0 <= n <= text.len(),
    ensures
        eval(rules, text, limit, budget, e, n) matches Ok(p) ==> n <= p.pos <= text.len() && leaves_all(
            p.nodes,
        ) == text.subrange(n, p.pos),
    decreases text.len() - n, budget, e, 0nat,
{
    assert(leaves_all(Seq::<NodeView>::empty()) =~= text.subrange(n, n));
    match e {
        ExprView::Simple(atom) => {
            lemma_eval_atom_span(text, atom, n);
            if let Ok((end, captured)) = eval_atom(text, atom, n) {
                lemma_leaves_one(NodeView::Val(captured));
            }
        },
        ExprView::And(parts) => {
            lemma_and_span(rules, text, limit, budget, parts, 0, n, n, Seq::empty());
        },
        ExprView::Or(alternatives) => {
            lemma_or_span(rules, text, limit, budget, alternatives, 0, n, None);
        },
        ExprView::Not(_) => {},
        ExprView::Repeat(inner, _, max) => {
            lemma_repeat_span(rules, text, limit, budget, *inner, max, n, n, 0, Seq::empty());
        },
        ExprView::RuleName(name) => {
            if budget > 0 && rules.contains_key(name) {
                lemma_eval_span(rules, text, limit, (budget - 1) as nat, rules[name], n);
                if let Ok(p) = eval(rules, text, limit, (budget - 1) as nat, rules[name], n) {
                    lemma_leaves_one(NodeView::Rule(name, p.nodes));
                }
            }
        },
    }
}

proof fn lemma_and_span(
    rules: Map<Seq<char>, ExprView>,
    text: Seq<char>,
    limit: nat,
    budget: nat,
    parts: Seq<ExprView>,
    i: int,
    start: int,
    n: int,
    acc: Seq<NodeView>,
)
    requires
        0 <= start <= n <= text.len(),
        leaves_all(acc) == text.subrange(start, n),
    ensures
        eval_and(rules, text, limit, budget, parts, i, n, acc) matches Ok(p) ==> n <= p.pos <= text.len()
            && leaves_all(p.nodes) == text.subrange(start, p.pos),
    decreases text.len() - n, budget, parts, parts.len() - i,
{
    if 0 <= i < parts.len() {
        lemma_eval_span(rules, text, limit, budget, parts[i], n);
        if let Ok(p) = eval(rules, text, limit, budget, parts[i], n) {
            lemma_leaves_add(acc, p.nodes);
            assert(text.subrange(start, n) + text.subrange(n, p.pos) =~= text.subrange(
                start,
                p.pos,
            ));
            if n < p.pos {
                lemma_and_span(rules, text, limit, limit, parts, i + 1, start, p.pos, acc + p.nodes);
            } else {
                lemma_and_span(rules, text, limit, budget, parts, i + 1, start, n, acc + p.nodes);
            }
        }
    }
}

proof fn lemma_or_span(
    rules: Map<Seq<char>, ExprView>,
    text: Seq<char>,
    limit: nat,
    budget: nat,
    alternatives: Seq<ExprView>,
    i: int,
    n: int,
    best: Option<ErrorView>,
)
    requires
        0 <= n <= text.len(),
    ensures
        eval_or(rules, text, limit, budget, alternatives, i, n, best) matches Ok(p) ==> n <= p.pos
            <= text.len() && leaves_all(p.nodes) == text.subrange(n, p.pos),
    decreases text.len() - n, budget, alternatives, alternatives.len() - i,
{
    if 0 <= i < alternatives.len() {
        lemma_eval_span(rules, text, limit, budget, alternatives[i], n);
        if let Err(f) = eval(rules, text, limit, budget, alternatives[i], n) {
            lemma_or_span(
                rules,
                text,
                limit,
                budget,
                alternatives,
                i + 1,
                n,
                Some(merge_errors(best, f)),
            );
        }
    }
}

proof fn lemma_repeat_span(
    rules: Map<Seq<char>, ExprView>,
    text: Seq<char>,
    limit: nat,
    budget: nat,
    inner: ExprView,
    max: Option<nat>,
    start: int,
    n: int,
    count: nat,
    acc: Seq<NodeView>,
)
    requires
        0 <= start <= n <= text.len(),
        leaves_all(acc) == text.subrange(start, n),
    ensures
        ({
            let run = eval_repeat(rules, text, limit, budget, inner, max, n, count, acc);
            &&& n <= run.pos <= text.len()
            &&& leaves_all(run.nodes) == text.subrange(start, run.pos)
            &&& count <= run.count
            &&& run.count - count <= run.pos - n
            &&& (max matches Some(m) ==> count <= m ==> run.count <= m)
        }),
    decreases text.len() - n, budget, inner, 1nat,
{
    if !(max matches Some(m) && count >= m) {
        lemma_eval_span(rules, text, limit, budget, inner, n);
        if let Ok(p) = eval(rules, text, limit, budget, inner, n) {
            if n < p.pos <= text.len() {
                lemma_leaves_add(acc, p.nodes);
                assert(text.subrange(start, n) + text.subrange(n, p.pos) =~= text.subrange(
                    start,
                    p.pos,
                ));
                lemma_repeat_span(
                    rules,
                    text,
                    limit,
                    limit,
                    inner,
                    max,
                    start,
                    p.pos,
                    count + 1,
                    acc + p.nodes,
                );
            }
        }
    }
}

/// The leaves of the tree of a successful parse, read left to right, are a
/// prefix of the input.
pub proof fn lemma_parse_leaves_prefix(text: Seq<char>, rules: Map<Seq<char>, ExprView>)
    ensures
        parse_spec(text, rules) matches Ok(tree) ==> leaves(tree).is_prefix_of(text),
{
    lemma_parse_symbol_leaves_prefix(text, "main"@, rules);
}

/// The leaves of the tree of a successful parse from any start rule are a
/// prefix of the input.
pub proof fn lemma_parse_symbol_leaves_prefix(
    text: Seq<char>,
    symbol: Seq<char>,
    rules: Map<Seq<char>, ExprView>,
)
    ensures
        parse_symbol_spec(text, symbol, rules) matches Ok(tree) ==> leaves(tree).is_prefix_of(text),
{
    let start = ExprView::RuleName(symbol);
    lemma_eval_span(rules, text, rules.len(), rules.len(), start, 0);
    if let Ok(p) = eval(rules, text, rules.len(), rules.len(), start, 0) {
        assert(p.nodes =~= seq![p.nodes[0]]);
        lemma_leaves_one(p.nodes[0]);
        lemma_compact_leaves(p.nodes[0]);
        assert(text.subrange(0, p.pos).is_prefix_of(text));
    }
}

/// The tree of a successful parse is a rule node named as the start rule.
pub proof fn lemma_parse_root(
    text: Seq<char>,
    symbol: Seq<char>,
    rules: Map<Seq<char>, ExprView>,
)
    ensures
        parse_symbol_spec(text, symbol, rules) matches Ok(tree) ==> tree matches NodeView::Rule(
            name,
            _,
        ) && name == symbol,
{
}

/// The leaves of the tree of a successful strict parse are the whole input.
pub proof fn lemma_parse_strict_leaves(text: Seq<char>, rules: Map<Seq<char>, ExprView>)
    ensures
        parse_strict_spec(text, rules) matches Ok(tree) ==> leaves(tree) == text,
{
    let start = ExprView::RuleName("main"@);
    lemma_eval_span(rules, text, rules.len(), rules.len(), start, 0);
    if let Ok(p) = eval(rules, text, rules.len(), rules.len(), start, 0) {
        assert(p.nodes =~= seq![p.nodes[0]]);
        lemma_leaves_one(p.nodes[0]);
        lemma_compact_leaves(p.nodes[0]);
        if p.pos == text.len() {
            assert(text.subrange(0, p.pos) =~= text);
        }
    }
}

// ---------------------------------------------------------------------------
// Where errors lie

/// Whether the error lies in `text` at or after offset `n`, with the line and
/// column of its offset.
pub open spec fn lies_within(text: Seq<char>, n: int, f: ErrorView) -> bool {
    n <= f.pos.n <= text.len() && f.pos == position_at(text, f.pos.n as int)
}

/// An expression that fails at offset `n` fails at an offset between `n` and
/// the end of the text.
pub proof fn lemma_eval_error_place(
    rules: Map<Seq<char>, ExprView>,
    text: Seq<char>,
    limit: nat,
    budget: nat,
    e: ExprView,
    n: int,
)
    requires
        0 <= n <= text.len() <= usize::MAX,
    ensures
        eval(rules, text, limit, budget, e, n) matches Err(f) ==> lies_within(text, n, f),
    decreases text.len() - n, budget, e, 0nat,
{
    lemma_position_offset(text, n);
    match e {
        ExprView::Simple(atom) => {
            match atom {
                AtomView::Literal(lit) => {
                    lemma_mismatch_range(lit, text, n, 0);
                    lemma_position_offset(text, n + mismatch_at(lit, text, n, 0));
                },
                _ => {},
            }
        },
        ExprView::And(parts) => {
            lemma_and_error_place(rules, text, limit, budget, parts, 0, n, n, Seq::empty());
        },
        ExprView::Or(alternatives) => {
            lemma_or_error_place(rules, text, limit, budget, alternatives, 0, n, None);
        },
        ExprView::Not(_) => {},
        ExprView::Repeat(_, _, _) => {},
        ExprView::RuleName(name) => {
            if budget > 0 && rules.contains_key(name) {
                lemma_eval_error_place(rules, text, limit, (budget - 1) as nat, rules[name], n);
            }
        },
    }
}

proof fn lemma_and_error_place(
    rules: Map<Seq<char>, ExprView>,
    text: Seq<char>,
    limit: nat,
    budget: nat,
    parts: Seq<ExprView>,
    i: int,
    start: int,
    n: int,
    acc: Seq<NodeView>,
)
    requires
        0 <= start <= n <= text.len() <= usize::MAX,
    ensures
        eval_and(rules, text, limit, budget, parts, i, n, acc) matches Err(f) ==> lies_within(
            text,
            start,
            f,
        ),
    decreases text.len() - n, budget, parts, parts.len() - i,
{
    if 0 <= i < parts.len() {
        lemma_eval_error_place(rules, text, limit, budget, parts[i], n);
        lemma_eval_span(rules, text, limit, budget, parts[i], n);
        if let Ok(p) = eval(rules, text, limit, budget, parts[i], n) {
            if n < p.pos {
                lemma_and_error_place(
                    rules,
                    text,
                    limit,
                    limit,
                    parts,
                    i + 1,
                    start,
                    p.pos,
                    acc + p.nodes,
                );
            } else {
                lemma_and_error_place(rules, text, limit, budget, parts, i + 1, start, n, acc + p.nodes);
            }
        }
    }
}

proof fn lemma_or_error_place(
    rules: Map<Seq<char>, ExprView>,
    text: Seq<char>,
    limit: nat,
    budget: nat,
    alternatives: Seq<ExprView>,
    i: int,
    n: int,
    best: Option<ErrorView>,
)
    requires
        0 <= n <= text.len() <= usize::MAX,
        best matches Some(b) ==> lies_within(text, n, b),
    ensures
        eval_or(rules, text, limit, budget, alternatives, i, n, best) matches Err(f) ==> lies_within(
            text,
            n,
            f,
        ),
    decreases text.len() - n, budget, alternatives, alternatives.len() - i,
{
    lemma_position_offset(text, n);
    if 0 <= i < alternatives.len() {
        lemma_eval_error_place(rules, text, limit, budget, alternatives[i], n);
        if let Err(f) = eval(rules, text, limit, budget, alternatives[i], n) {
            lemma_or_error_place(
                rules,
                text,
                limit,
                budget,
                alternatives,
                i + 1,
                n,
                Some(merge_errors(best, f)),
            );
        }
    }
}

/// The error of a failed parse lies in the input.
pub proof fn lemma_parse_error_place(text: Seq<char>, rules: Map<Seq<char>, ExprView>)
    requires
        text.len() <= usize::MAX,
    ensures
        parse_spec(text, rules) matches Err(f) ==> lies_within(text, 0, f),
        parse_strict_spec(text, rules) matches Err(f) ==> lies_within(text, 0, f),
{
    let start = ExprView::RuleName("main"@);
    lemma_eval_error_place(rules, text, rules.len(), rules.len(), start, 0);
    lemma_eval_span(rules, text, rules.len(), rules.len(), start, 0);
    if let Ok(p) = eval(rules, text, rules.len(), rules.len(), start, 0) {
        lemma_position_offset(text, p.pos);
    }
}

// ---------------------------------------------------------------------------
// The budget

/// Whether the evaluation of `e` at offset `n` refuses a rule reference for
/// want of budget, at any point of the evaluation.
pub open spec fn starved(
    rules: Map<Seq<char>, ExprView>,
    text: Seq<char>,
    limit: nat,
    budget: nat,
    e: ExprView,
    n: int,
) -> bool
    decreases text.len() - n, budget, e, 0nat,
{
    match e {
        ExprView::Simple(_) => false,
        ExprView::And(parts) => starved_and(rules, text, limit, budget, parts, 0, n),
        ExprView::Or(alternatives) => starved_or(rules, text, limit, budget, alternatives, 0, n),
        ExprView::Not(inner) => starved(rules, text, limit, budget, *inner, n),
        ExprView::Repeat(inner, _, max) => starved_repeat(
            rules,
            text,
            limit,
            budget,
            *inner,
            max,
            n,
            0,
        ),
        ExprView::RuleName(name) => rules.contains_key(name) && (budget == 0 || starved(
            rules,
            text,
            limit,
            (budget - 1) as nat,
            rules[name],
            n,
        )),
    }
}

/// Whether the evaluation of the parts of a sequence from index `i` on
/// refuses a rule reference for want of budget.
pub open spec fn starved_and(
    rules: Map<Seq<char>, ExprView>,
    text: Seq<char>,
    limit: nat,
    budget: nat,
    parts: Seq<ExprView>,
    i: int,
    n: int,
) -> bool
    decreases text.len() - n, budget, parts, parts.len() - i,
{
    if i < 0 || i >= parts.len() {
        false
    } else {
        starved(rules, text, limit, budget, parts[i], n) || match eval(
            rules,
            text,
            limit,
            budget,
            parts[i],
            n,
        ) {
            Ok(p) => if n < p.pos <= text.len() {
                starved_and(rules, text, limit, limit, parts, i + 1, p.pos)
            } else {
                starved_and(rules, text, limit, budget, parts, i + 1, n)
            },
            Err(_) => false,
        }
    }
}

/// Whether the evaluation of the alternatives of a choice from index `i` on
/// refuses a rule reference for want of budget.
pub open spec fn starved_or(
    rules: Map<Seq<char>, ExprView>,
    text: Seq<char>,
    limit: nat,
    budget: nat,
    alternatives: Seq<ExprView>,
    i: int,
    n: int,
) -> bool
    decreases text.len() - n, budget, alternatives, alternatives.len() - i,
{
    if i < 0 || i >= alternatives.len() {
        false
    } else {
        starved(rules, text, limit, budget, alternatives[i], n) || match eval(
            rules,
            text,
            limit,
            budget,
            alternatives[i],
            n,
        ) {
            Ok(_) => false,
            Err(_) => starved_or(rules, text, limit, budget, alternatives, i + 1, n),
        }
    }
}

/// Whether the run of a repetition from offset `n`, after `count` accepted
/// iterations, refuses a rule reference for want of budget.
pub open spec fn starved_repeat(
    rules: Map<Seq<char>, ExprView>,
    text: Seq<char>,
    limit: nat,
    budget: nat,
    inner: ExprView,
    max: Option<nat>,
    n: int,
    count: nat,
) -> bool
    decreases text.len() - n, budget, inner, 1nat,
{
    if max matches Some(m) && count >= m {
        false
    } else {
        starved(rules, text, limit, budget, inner, n) || match eval(
            rules,
            text,
            limit,
            budget,
            inner,
            n,
        ) {
            Ok(p) => if n < p.pos <= text.len() {
                starved_repeat(rules, text, limit, limit, inner, max, p.pos, count + 1)
            } else {
                false
            },
            Err(_) => false,
        }
    }
}

/// An evaluation that never refuses a reference for want of budget gives the
/// same result with any greater budget and limit: the budget shows in a
/// result only where it is used up.
pub proof fn lemma_budget_to_spare(
    rules: Map<Seq<char>, ExprView>,
    text: Seq<char>,
    limit: nat,
    budget: nat,
    more_limit: nat,
    more_budget: nat,
    e: ExprView,
    n: int,
)
    requires
        !starved(rules, text, limit, budget, e, n),
        limit <= more_limit,
        budget <= more_budget,
    ensures
        !starved(rules, text, more_limit, more_budget, e, n),
        eval(rules, text, more_limit, more_budget, e, n) == eval(rules, text, limit, budget, e, n),
    decreases text.len() - n, budget, e, 0nat,
{
    match e {
        ExprView::Simple(_) => {},
        ExprView::And(parts) => {
            lemma_budget_and(
                rules,
                text,
                limit,
                budget,
                more_limit,
                more_budget,
                parts,
                0,
                n,
                Seq::empty(),
            );
        },
        ExprView::Or(alternatives) => {
            lemma_budget_or(
                rules,
                text,
                limit,
                budget,
                more_limit,
                more_budget,
                alternatives,
                0,
                n,
                None,
            );
        },
        ExprView::Not(inner) => {
            lemma_budget_to_spare(rules, text, limit, budget, more_limit, more_budget, *inner, n);
        },
        ExprView::Repeat(inner, _, max) => {
            lemma_budget_repeat(
                rules,
                text,
                limit,
                budget,
                more_limit,
                more_budget,
                *inner,
                max,
                n,
                0,
                Seq::empty(),
            );
        },
        ExprView::RuleName(name) => {
            if rules.contains_key(name) {
                lemma_budget_to_spare(
                    rules,
                    text,
                    limit,
                    (budget - 1) as nat,
                    more_limit,
                    (more_budget - 1) as nat,
                    rules[name],
                    n,
                );
            }
        },
    }
}

proof fn lemma_budget_and(
    rules: Map<Seq<char>, ExprView>,
    text: Seq<char>,
    limit: nat,
    budget: nat,
    more_limit: nat,
    more_budget: nat,
    parts: Seq<ExprView>,
    i: int,
    n: int,
    acc: Seq<NodeView>,
)
    requires
        !starved_and(rules, text, limit, budget, parts, i, n),
        limit <= more_limit,
        budget <= more_budget,
    ensures
        !starved_and(rules, text, more_limit, more_budget, parts, i, n),
        eval_and(rules, text, more_limit, more_budget, parts, i, n, acc) == eval_and(
            rules,
            text,
            limit,
            budget,
            parts,
            i,
            n,
            acc,
        ),
    decreases text.len() - n, budget, parts, parts.len() - i,
{
    if 0 <= i < parts.len() {
        lemma_budget_to_spare(rules, text, limit, budget, more_limit, more_budget, parts[i], n);
        if let Ok(p) = eval(rules, text, limit, budget, parts[i], n) {
            if n < p.pos <= text.len() {
                lemma_budget_and(
                    rules,
                    text,
                    limit,
                    limit,
                    more_limit,
                    more_limit,
                    parts,
                    i + 1,
                    p.pos,
                    acc + p.nodes,
                );
            } else {
                lemma_budget_and(
                    rules,
                    text,
                    limit,
                    budget,
                    more_limit,
                    more_budget,
                    parts,
                    i + 1,
                    n,
                    acc + p.nodes,
                );
            }
        }
    }
}

proof fn lemma_budget_or(
    rules: Map<Seq<char>, ExprView>,
    text: Seq<char>,
    limit: nat,
    budget: nat,
    more_limit: nat,
    more_budget: nat,
    alternatives: Seq<ExprView>,
    i: int,
    n: int,
    best: Option<ErrorView>,
)
    requires
        !starved_or(rules, text, limit, budget, alternatives, i, n),
        limit <= more_limit,
        budget <= more_budget,
    ensures
        !starved_or(rules, text, more_limit, more_budget, alternatives, i, n),
        eval_or(rules, text, more_limit, more_budget, alternatives, i, n, best) == eval_or(
            rules,
            text,
            limit,
            budget,
            alternatives,
            i,
            n,
            best,
        ),
    decreases text.len() - n, budget, alternatives, alternatives.len() - i,
{
    if 0 <= i < alternatives.len() {
        lemma_budget_to_spare(
            rules,
            text,
            limit,
            budget,
            more_limit,
            more_budget,
            alternatives[i],
            n,
        );
        if let Err(f) = eval(rules, text, limit, budget, alternatives[i], n) {
            lemma_budget_or(
                rules,
                text,
                limit,
                budget,
                more_limit,
                more_budget,
                alternatives,
                i + 1,
                n,
                Some(merge_errors(best, f)),
            );
        }
    }
}

proof fn lemma_budget_repeat(
    rules: Map<Seq<char>, ExprView>,
    text: Seq<char>,
    limit: nat,
    budget: nat,
    more_limit: nat,
    more_budget: nat,
    inner: ExprView,
    max: Option<nat>,
    n: int,
    count: nat,
    acc: Seq<NodeView>,
)
    requires
        !starved_repeat(rules, text, limit, budget, inner, max, n, count),
        limit <= more_limit,
        budget <= more_budget,
    ensures
        !starved_repeat(rules, text, more_limit, more_budget, inner, max, n, count),
        eval_repeat(rules, text, more_limit, more_budget, inner, max, n, count, acc)
            == eval_repeat(rules, text, limit, budget, inner, max, n, count, acc),
    decreases text.len() - n, budget, inner, 1nat,
{
    if !(max matches Some(m) && count >= m) {
        lemma_budget_to_spare(rules, text, limit, budget, more_limit, more_budget, inner, n);
        if let Ok(p) = eval(rules, text, limit, budget, inner, n) {
            if n < p.pos <= text.len() {
                lemma_budget_repeat(
                    rules,
                    text,
                    limit,
                    limit,
                    more_limit,
                    more_limit,
                    inner,
                    max,
                    p.pos,
                    count + 1,
                    acc + p.nodes,
                );
            }
        }
    }
}

/// Whether the evaluation of `e` at offset `n` enters a rule that is open at
/// the offset where it is entered: a rule that was entered at that offset and
/// has not been left since. `open` holds the rules that are open at `n`.
pub open spec fn reenters(
    rules: Map<Seq<char>, ExprView>,
    text: Seq<char>,
    limit: nat,
    budget: nat,
    open: Seq<Seq<char>>,
    e: ExprView,
    n: int,
) -> bool
    decreases text.len() - n, budget, e, 0nat,
{
    match e {
        ExprView::Simple(_) => false,
        ExprView::And(parts) => reenters_and(rules, text, limit, budget, open, parts, 0, n),
        ExprView::Or(alternatives) => reenters_or(
            rules,
            text,
            limit,
            budget,
            open,
            alternatives,
            0,
            n,
        ),
        ExprView::Not(inner) => reenters(rules, text, limit, budget, open, *inner, n),
        ExprView::Repeat(inner, _, max) => reenters_repeat(
            rules,
            text,
            limit,
            budget,
            open,
            *inner,
            max,
            n,
            0,
        ),
        ExprView::RuleName(name) => rules.contains_key(name) && (open.contains(name) || (budget
            > 0 && reenters(
            rules,
            text,
            limit,
            (budget - 1) as nat,
            open.push(name),
            rules[name],
            n,
        ))),
    }
}

/// Whether the evaluation of the parts of a sequence from index `i` on enters
/// a rule that is open at the offset where it is entered.
pub open spec fn reenters_and(
    rules: Map<Seq<char>, ExprView>,
    text: Seq<char>,
    limit: nat,
    budget: nat,
    open: Seq<Seq<char>>,
    parts: Seq<ExprView>,
    i: int,
    n: int,
) -> bool
    decreases text.len() - n, budget, parts, parts.len() - i,
{
    if i < 0 || i >= parts.len() {
        false
    } else {
        reenters(rules, text, limit, budget, open, parts[i], n) || match eval(
            rules,
            text,
            limit,
            budget,
            parts[i],
            n,
        ) {
            Ok(p) => if n < p.pos <= text.len() {
                reenters_and(rules, text, limit, limit, Seq::empty(), parts, i + 1, p.pos)
            } else {
                reenters_and(rules, text, limit, budget, open, parts, i + 1, n)
            },
            Err(_) => false,
        }
    }
}

/// Whether the evaluation of the alternatives of a choice from index `i` on
/// enters a rule that is open at the offset where it is entered.
pub open spec fn reenters_or(
    rules: Map<Seq<char>, ExprView>,
    text: Seq<char>,
    limit: nat,
    budget: nat,
    open: Seq<Seq<char>>,
    alternatives: Seq<ExprView>,
    i: int,
    n: int,
) -> bool
    decreases text.len() - n, budget, alternatives, alternatives.len() - i,
{
    if i < 0 || i >= alternatives.len() {
        false
    } else {
        reenters(rules, text, limit, budget, open, alternatives[i], n) || match eval(
            rules,
            text,
            limit,
            budget,
            alternatives[i],
            n,
        ) {
            Ok(_) => false,
            Err(_) => reenters_or(rules, text, limit, budget, open, alternatives, i + 1, n),
        }
    }
}

/// Whether the run of a repetition from offset `n`, after `count` accepted
/// iterations, enters a rule that is open at the offset where it is entered.
pub open spec fn reenters_repeat(
    rules: Map<Seq<char>, ExprView>,
    text: Seq<char>,
    limit: nat,
    budget: nat,
    open: Seq<Seq<char>>,
    inner: ExprView,
    max: Option<nat>,
    n: int,
    count: nat,
) -> bool
    decreases text.len() - n, budget, inner, 1nat,
{
    if max matches Some(m) && count >= m {
        false
    } else {
        reenters(rules, text, limit, budget, open, inner, n) || match eval(
            rules,
            text,
            limit,
            budget,
            inner,
            n,
        ) {
            Ok(p) => if n < p.pos <= text.len() {
                reenters_repeat(
                    rules,
                    text,
                    limit,
                    limit,
                    Seq::empty(),
                    inner,
                    max,
                    p.pos,
                    count + 1,
                )
            } else {
                false
            },
            Err(_) => false,
        }
    }
}

/// Whether the budget and the open rules account for a limit of at least one
/// unit for each rule: the open rules are rules of the set, no two of them
/// the same, and each has taken one unit of the budget.
pub open spec fn accounted(
    rules: Map<Seq<char>, ExprView>,
    limit: nat,
    budget: nat,
    open: Seq<Seq<char>>,
) -> bool {
    &&& rules.dom().finite()
    &&& rules.len() <= limit
    &&& budget + open.len() == limit
    &&& open.no_duplicates()
    &&& forall|i: int| 0 <= i < open.len() ==> rules.contains_key(#[trigger] open[i])
}

proof fn lemma_open_holds_every_rule(
    rules: Map<Seq<char>, ExprView>,
    open: Seq<Seq<char>>,
    name: Seq<char>,
)
    requires
        rules.dom().finite(),
        open.no_duplicates(),
        forall|i: int| 0 <= i < open.len() ==> rules.contains_key(#[trigger] open[i]),
        open.len() >= rules.len(),
        rules.contains_key(name),
    ensures
        open.contains(name),
{
    let names = open.to_set();
    open.unique_seq_to_set();
    assert(names.subset_of(rules.dom())) by {
        assert forall|a: Seq<char>| names.contains(a) implies rules.dom().contains(a) by {
            let i = choose|i: int| 0 <= i < open.len() && open[i] == a;
            assert(rules.contains_key(open[i]));
        }
    }
    lemma_len_subset(names, rules.dom());
    lemma_subset_equality(names, rules.dom());
    assert(names.contains(name));
}

/// With a limit of at least one unit of budget for each rule, a reference is
/// refused for want of budget only in an evaluation that enters a rule again
/// at the offset where it is open: an evaluation that, without the budget,
/// would go on for ever.
pub proof fn lemma_starved_reenters(
    rules: Map<Seq<char>, ExprView>,
    text: Seq<char>,
    limit: nat,
    budget: nat,
    open: Seq<Seq<char>>,
    e: ExprView,
    n: int,
)
    requires
        accounted(rules, limit, budget, open),
        starved(rules, text, limit, budget, e, n),
    ensures
        reenters(rules, text, limit, budget, open, e, n),
    decreases text.len() - n, budget, e, 0nat,
{
    assert(accounted(rules, limit, limit, Seq::empty()));
    match e {
        ExprView::Simple(_) => {},
        ExprView::And(parts) => {
            lemma_starved_and(rules, text, limit, budget, open, parts, 0, n);
        },
        ExprView::Or(alternatives) => {
            lemma_starved_or(rules, text, limit, budget, open, alternatives, 0, n);
        },
        ExprView::Not(inner) => {
            lemma_starved_reenters(rules, text, limit, budget, open, *inner, n);
        },
        ExprView::Repeat(inner, _, max) => {
            lemma_starved_repeat(rules, text, limit, budget, open, *inner, max, n, 0);
        },
        ExprView::RuleName(name) => {
            if budget == 0 {
                lemma_open_holds_every_rule(rules, open, name);
            } else if !open.contains(name) {
                let more = open.push(name);
                assert(more.no_duplicates()) by {
                    assert forall|i: int, j: int|
                        0 <= i < more.len() && 0 <= j < more.len() && i != j implies more[i]
                        != more[j] by {
                        if i < open.len() && j < open.len() {
                            assert(open[i] != open[j]);
                        } else if i < open.len() {
                            assert(open.contains(open[i]));
                        } else {
                            assert(open.contains(open[j]));
                        }
                    }
                }
                assert forall|i: int| 0 <= i < more.len() implies rules.contains_key(
                    #[trigger] more[i],
                ) by {
                    if i < open.len() {
                        assert(more[i] == open[i]);
                    }
                }
                lemma_starved_reenters(
                    rules,
                    text,
                    limit,
                    (budget - 1) as nat,
                    more,
                    rules[name],
                    n,
                );
            }
        },
    }
}

proof fn lemma_starved_and(
    rules: Map<Seq<char>, ExprView>,
    text: Seq<char>,
    limit: nat,
    budget: nat,
    open: Seq<Seq<char>>,
    parts: Seq<ExprView>,
    i: int,
    n: int,
)
    requires
        accounted(rules, limit, budget, open),
        starved_and(rules, text, limit, budget, parts, i, n),
    ensures
        reenters_and(rules, text, limit, budget, open, parts, i, n),
    decreases text.len() - n, budget, parts, parts.len() - i,
{
    assert(accounted(rules, limit, limit, Seq::empty()));
    if 0 <= i < parts.len() {
        if starved(rules, text, limit, budget, parts[i], n) {
            lemma_starved_reenters(rules, text, limit, budget, open, parts[i], n);
        } else if let Ok(p) = eval(rules, text, limit, budget, parts[i], n) {
            if n < p.pos <= text.len() {
                lemma_starved_and(rules, text, limit, limit, Seq::empty(), parts, i + 1, p.pos);
            } else {
                lemma_starved_and(rules, text, limit, budget, open, parts, i + 1, n);
            }
        }
    }
}

proof fn lemma_starved_or(
    rules: Map<Seq<char>, ExprView>,
    text: Seq<char>,
    limit: nat,
    budget: nat,
    open: Seq<Seq<char>>,
    alternatives: Seq<ExprView>,
    i: int,
    n: int,
)
    requires
        accounted(rules, limit, budget, open),
        starved_or(rules, text, limit, budget, alternatives, i, n),
    ensures
        reenters_or(rules, text, limit, budget, open, alternatives, i, n),
    decreases text.len() - n, budget, alternatives, alternatives.len() - i,
{
    if 0 <= i < alternatives.len() {
        if starved(rules, text, limit, budget, alternatives[i], n) {
            lemma_starved_reenters(rules, text, limit, budget, open, alternatives[i], n);
        } else if let Err(_) = eval(rules, text, limit, budget, alternatives[i], n) {
            lemma_starved_or(rules, text, limit, budget, open, alternatives, i + 1, n);
        }
    }
}

proof fn lemma_starved_repeat(
    rules: Map<Seq<char>, ExprView>,
    text: Seq<char>,
    limit: nat,
    budget: nat,
    open: Seq<Seq<char>>,
    inner: ExprView,
    max: Option<nat>,
    n: int,
    count: nat,
)
    requires
        accounted(rules, limit, budget, open),
        starved_repeat(rules, text, limit, budget, inner, max, n, count),
    ensures
        reenters_repeat(rules, text, limit, budget, open, inner, max, n, count),
    decreases text.len() - n, budget, inner, 1nat,
{
    assert(accounted(rules, limit, limit, Seq::empty()));
    if !(max matches Some(m) && count >= m) {
        if starved(rules, text, limit, budget, inner, n) {
            lemma_starved_reenters(rules, text, limit, budget, open, inner, n);
        } else if let Ok(p) = eval(rules, text, limit, budget, inner, n) {
            if n < p.pos <= text.len() {
                lemma_starved_repeat(
                    rules,
                    text,
                    limit,
                    limit,
                    Seq::empty(),
                    inner,
                    max,
                    p.pos,
                    count + 1,
                );
            }
        }
    }
}

// ---------------------------------------------------------------------------
// Negation

/// A negation fails where its expression succeeds, however much that
/// consumes; where its expression fails, the negation succeeds at the same
/// offset and produces no node.
pub proof fn lemma_not(
    rules: Map<Seq<char>, ExprView>,
    text: Seq<char>,
    limit: nat,
    budget: nat,
    inner: ExprView,
    n: int,
)
    ensures
        eval(rules, text, limit, budget, inner, n) is Ok ==> (eval(
            rules,
            text,
            limit,
            budget,
            ExprView::Not(Box::new(inner)),
            n,
        ) matches Err(f) && f.kind == ErrorKind::NegationMatched && f.pos == position_at(text, n)),
        eval(rules, text, limit, budget, inner, n) is Err ==> eval(
            rules,
            text,
            limit,
            budget,
            ExprView::Not(Box::new(inner)),
            n,
        ) == Ok::<Parsed, ErrorView>(Parsed { pos: n, nodes: Seq::empty() }),
{
}

// ---------------------------------------------------------------------------
// Repetition

/// The number of iterations that the repetition of `inner` accepts from offset `n`.
pub open spec fn iterations(
    rules: Map<Seq<char>, ExprView>,
    text: Seq<char>,
    limit: nat,
    budget: nat,
    inner: ExprView,
    max: Option<nat>,
    n: int,
) -> nat {
    eval_repeat(rules, text, limit, budget, inner, max, n, 0, Seq::empty()).count
}

/// A repetition succeeds iff the number of iterations it accepts is at least
/// its minimum; that number never exceeds its maximum. So on success the
/// number of iterations lies between the two.
pub proof fn lemma_repeat_count(
    rules: Map<Seq<char>, ExprView>,
    text: Seq<char>,
    limit: nat,
    budget: nat,
    inner: ExprView,
    min: nat,
    max: Option<nat>,
    n: int,
)
    requires
        0 <= n <= text.len(),
    ensures
        eval(rules, text, limit, budget, ExprView::Repeat(Box::new(inner), min, max), n) is Ok <==> min
            <= iterations(rules, text, limit, budget, inner, max, n),
        (max matches Some(m) ==> iterations(rules, text, limit, budget, inner, max, n) <= m),
        eval(rules, text, limit, budget, ExprView::Repeat(Box::new(inner), min, max), n) matches Err(f)
            ==> f.kind == ErrorKind::TooFewRepetitions && f.pos == position_at(text, n),
{
    assert(leaves_all(Seq::<NodeView>::empty()) =~= text.subrange(n, n));
    lemma_repeat_span(rules, text, limit, budget, inner, max, n, n, 0, Seq::empty());
}

// ---------------------------------------------------------------------------
// Ordered choice

proof fn lemma_or_skip(
    rules: Map<Seq<char>, ExprView>,
    text: Seq<char>,
    limit: nat,
    budget: nat,
    alternatives: Seq<ExprView>,
    i: int,
    j: int,
    n: int,
    best: Option<ErrorView>,
)
    requires
        0 <= i <= j < alternatives.len(),
        eval(rules, text, limit, budget, alternatives[j], n) is Ok,
        forall|k: int| i <= k < j ==> (#[trigger] eval(rules, text, limit, budget, alternatives[k], n)) is Err,
    ensures
        eval_or(rules, text, limit, budget, alternatives, i, n, best) == eval(
            rules,
            text,
            limit,
            budget,
            alternatives[j],
            n,
        ),
    decreases j - i,
{
    if i < j {
        let f = eval(rules, text, limit, budget, alternatives[i], n)->Err_0;
        lemma_or_skip(rules, text, limit, budget, alternatives, i + 1, j, n, Some(merge_errors(best, f)));
    }
}

/// A choice returns what its first succeeding alternative returns.
pub proof fn lemma_or_first_success(
    rules: Map<Seq<char>, ExprView>,
    text: Seq<char>,
    limit: nat,
    budget: nat,
    alternatives: Seq<ExprView>,
    j: int,
    n: int,
)
    requires
        0 <= j < alternatives.len(),
        eval(rules, text, limit, budget, alternatives[j], n) is Ok,
        forall|k: int| 0 <= k < j ==> (#[trigger] eval(rules, text, limit, budget, alternatives[k], n)) is Err,
    ensures
        eval(rules, text, limit, budget, ExprView::Or(alternatives), n) == eval(
            rules,
            text,
            limit,
            budget,
            alternatives[j],
            n,
        ),
{
    lemma_or_skip(rules, text, limit, budget, alternatives, 0, j, n, None);
}

/// The offset of the error of alternative `k`.
pub open spec fn failed_at(
    rules: Map<Seq<char>, ExprView>,
    text: Seq<char>,
    limit: nat,
    budget: nat,
    alternatives: Seq<ExprView>,
    k: int,
    n: int,
) -> int {
    eval(rules, text, limit, budget, alternatives[k], n)->Err_0.pos.n as int
}

proof fn lemma_or_deepest(
    rules: Map<Seq<char>, ExprView>,
    text: Seq<char>,
    limit: nat,
    budget: nat,
    alternatives: Seq<ExprView>,
    i: int,
    n: int,
    best: Option<ErrorView>,
)
    requires
        0 <= i <= alternatives.len(),
        i == 0 <==> best is None,
        alternatives.len() > 0,
        forall|k: int|
            0 <= k < alternatives.len() ==> (#[trigger] eval(
                rules,
                text,
                limit,
                budget,
                alternatives[k],
                n,
            )) is Err,
        best matches Some(b) ==> {
            &&& forall|k: int|
                0 <= k < i ==> #[trigger] failed_at(rules, text, limit, budget, alternatives, k, n)
                    <= b.pos.n
            &&& exists|k: int|
                0 <= k < i && #[trigger] failed_at(rules, text, limit, budget, alternatives, k, n)
                    == b.pos.n
        },
    ensures
        eval_or(rules, text, limit, budget, alternatives, i, n, best) matches Err(f) && {
            &&& forall|k: int|
                0 <= k < alternatives.len() ==> #[trigger] failed_at(
                    rules,
                    text,
                    limit,
                    budget,
                    alternatives,
                    k,
                    n,
                ) <= f.pos.n
            &&& exists|k: int|
                0 <= k < alternatives.len() && #[trigger] failed_at(
                    rules,
                    text,
                    limit,
                    budget,
                    alternatives,
                    k,
                    n,
                ) == f.pos.n
        },
    decreases alternatives.len() - i,
{
    if i < alternatives.len() {
        let r = eval(rules, text, limit, budget, alternatives[i], n);
        assert(r is Err);
        let f = r->Err_0;
        let next = merge_errors(best, f);
        assert(failed_at(rules, text, limit, budget, alternatives, i, n) == f.pos.n);
        match best {
            Some(b) => {
                let w = choose|k: int|
                    0 <= k < i && #[trigger] failed_at(rules, text, limit, budget, alternatives, k, n)
                        == b.pos.n;
                if b.pos.n >= f.pos.n {
                    assert(failed_at(rules, text, limit, budget, alternatives, w, n) == next.pos.n);
                }
            },
            None => {},
        }
        assert forall|k: int| 0 <= k < i + 1 implies #[trigger] failed_at(
            rules,
            text,
            limit,
            budget,
            alternatives,
            k,
            n,
        ) <= next.pos.n by {
            if k < i {
            }
        }
        lemma_or_deepest(rules, text, limit, budget, alternatives, i + 1, n, Some(next));
    }
}

/// A choice none of whose alternatives succeeds fails at the deepest offset
/// at which one of them failed.
pub proof fn lemma_or_all_fail(
    rules: Map<Seq<char>, ExprView>,
    text: Seq<char>,
    limit: nat,
    budget: nat,
    alternatives: Seq<ExprView>,
    n: int,
)
    requires
        alternatives.len() > 0,
        forall|k: int|
            0 <= k < alternatives.len() ==> (#[trigger] eval(
                rules,
                text,
                limit,
                budget,
                alternatives[k],
                n,
            )) is Err,
    ensures
        eval(rules, text, limit, budget, ExprView::Or(alternatives), n) matches Err(f) && {
            &&& forall|k: int|
                0 <= k < alternatives.len() ==> #[trigger] failed_at(
                    rules,
                    text,
                    limit,
                    budget,
                    alternatives,
                    k,
                    n,
                ) <= f.pos.n
            &&& exists|k: int|
                0 <= k < alternatives.len() && #[trigger] failed_at(
                    rules,
                    text,
                    limit,
                    budget,
                    alternatives,
                    k,
                    n,
                ) == f.pos.n
        },
{
    lemma_or_deepest(rules, text, limit, budget, alternatives, 0, n, None);
}

} // verus!
