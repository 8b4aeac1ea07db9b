//! What an expression means: the result of evaluating it at an offset of a
//! text under a rule set.
//!
//! Evaluation never runs forever. A rule that refers to itself before a
//! character is consumed would: so each evaluation has a budget, the number of
//! rule references that may still be entered before a character is consumed.
//! A reference that finds the budget used up fails. When a character is
//! consumed, the budget is set back to its limit. With one unit of budget for
//! each rule of the set, a reference fails for want of budget only where some
//! rule is entered again at the offset where it was entered before, and a
//! budget that is not used up does not show in the result: see `laws`.

use vstd::prelude::*;
use crate::ast::NodeView;
use crate::atom::eval_atom;
use crate::error::failure;
use crate::error::in_context;
use crate::error::merge_errors;
use crate::error::ErrorKind;
use crate::error::ErrorView;
use crate::expression::ExprView;

verus! {

/// A successful evaluation: the offset after the match and the nodes produced.
pub struct Parsed {
    pub pos: int,
    pub nodes: Seq<NodeView>,
}

/// A run of a repetition: how many iterations were accepted, the offset after
/// the last of them, and the nodes they produced.
pub struct Run {
    pub count: nat,
    pub pos: int,
    pub nodes: Seq<NodeView>,
}

/// The result of evaluating `e` at offset `n` of `text`.
///
/// - A terminal produces one `Val` with the text it captured.
/// - A sequence evaluates its parts one after the other and fails with the
///   error of the first part that fails.
/// - A choice takes the first alternative that succeeds; if none does, it fails
///   with the merged error of the alternatives.
/// - A negation succeeds without consuming or producing anything iff its
///   expression fails.
/// - A repetition succeeds iff its run has at least `min` iterations.
/// - A rule reference evaluates the rule's expression with one unit of budget
///   less and wraps the nodes into one `Rule` node; it fails where the rule is
///   missing or no budget is left.
pub open spec fn eval(
    rules: Map<Seq<char>, ExprView>,
    text: Seq<char>,
    limit: nat,
    budget: nat,
    e: ExprView,
    n: int,
) -> Result<Parsed, ErrorView>
    decreases text.len() - n, budget, e, 0nat,
{
    match e {
        ExprView::Simple(atom) => match eval_atom(text, atom, n) {
            Ok((end, captured)) => Ok(Parsed { pos: end, nodes: seq![NodeView::Val(captured)] }),
            Err(f) => Err(f),
        },
        ExprView::And(parts) => eval_and(rules, text, limit, budget, parts, 0, n, Seq::empty()),
        ExprView::Or(alternatives) => eval_or(
            rules,
            text,
            limit,
            budget,
            alternatives,
            0,
            n,
            None,
        ),
        ExprView::Not(inner) => match eval(rules, text, limit, budget, *inner, n) {
            Ok(_) => Err(failure(text, n, ErrorKind::NegationMatched, "negation matched"@)),
            Err(_) => Ok(Parsed { pos: n, nodes: Seq::empty() }),
        },
        ExprView::Repeat(inner, min, max) => {
            let run = eval_repeat(rules, text, limit, budget, *inner, max, n, 0, Seq::empty());
            if run.count >= min {
                Ok(Parsed { pos: run.pos, nodes: run.nodes })
            } else {
                Err(failure(text, n, ErrorKind::TooFewRepetitions, "too few repetitions"@))
            }
        },
        ExprView::RuleName(name) => if !rules.contains_key(name) {
            Err(failure(text, n, ErrorKind::MissingRule, "missing rule "@ + name))
        } else if budget == 0 {
            Err(failure(text, n, ErrorKind::LeftRecursion, "left recursion in rule "@ + name))
        } else {
            match eval(rules, text, limit, (budget - 1) as nat, rules[name], n) {
                Ok(p) => Ok(Parsed { pos: p.pos, nodes: seq![NodeView::Rule(name, p.nodes)] }),
                Err(f) => Err(in_context(name, f)),
            }
        },
    }
}

/// The parts of a sequence from index `i` on, evaluated from offset `n`, with
/// `acc` the nodes of the parts before `i`.
pub open spec fn eval_and(
    rules: Map<Seq<char>, ExprView>,
    text: Seq<char>,
    limit: nat,
    budget: nat,
    parts: Seq<ExprView>,
    i: int,
    n: int,
    acc: Seq<NodeView>,
) -> Result<Parsed, ErrorView>
    decreases text.len() - n, budget, parts, parts.len() - i,
{
    if i < 0 || i >= parts.len() {
        Ok(Parsed { pos: n, nodes: acc })
    } else {
        match eval(rules, text, limit, budget, parts[i], n) {
            Ok(p) => if n < p.pos <= text.len() {
                eval_and(rules, text, limit, limit, parts, i + 1, p.pos, acc + p.nodes)
            } else {
                eval_and(rules, text, limit, budget, parts, i + 1, n, acc + p.nodes)
            },
            Err(f) => Err(f),
        }
    }
}

/// The alternatives of a choice from index `i` on, each evaluated at offset
/// `n`, with `best` the merged error of the alternatives before `i`.
pub open spec fn eval_or(
    rules: Map<Seq<char>, ExprView>,
    text: Seq<char>,
    limit: nat,
    budget: nat,
    alternatives: Seq<ExprView>,
    i: int,
    n: int,
    best: Option<ErrorView>,
) -> Result<Parsed, ErrorView>
    decreases text.len() - n, budget, alternatives, alternatives.len() - i,
{
    if i < 0 || i >= alternatives.len() {
        match best {
            Some(f) => Err(f),
            None => Err(failure(text, n, ErrorKind::NoAlternative, "no alternative"@)),
        }
    } else {
        match eval(rules, text, limit, budget, alternatives[i], n) {
            Ok(p) => Ok(p),
            Err(f) => eval_or(
                rules,
                text,
                limit,
                budget,
                alternatives,
                i + 1,
                n,
                Some(merge_errors(best, f)),
            ),
        }
    }
}

/// The greedy run of `inner` from offset `n`, after `count` accepted
/// iterations that produced `acc`. The run ends when `max` iterations are
/// accepted, when `inner` fails, or when `inner` succeeds without moving on.
pub open spec fn eval_repeat(
    rules: Map<Seq<char>, ExprView>,
    text: Seq<char>,
    limit: nat,
    budget: nat,
    inner: ExprView,
    max: Option<nat>,
    n: int,
    count: nat,
    acc: Seq<NodeView>,
) -> Run
    decreases text.len() - n, budget, inner, 1nat,
{
    if max matches Some(m) && count >= m {
        Run { count, pos: n, nodes: acc }
    } else {
        match eval(rules, text, limit, budget, inner, n) {
            Ok(p) => if n < p.pos <= text.len() {
                eval_repeat(rules, text, limit, limit, inner, max, p.pos, count + 1, acc + p.nodes)
            } else {
                Run { count, pos: n, nodes: acc }
            },
            Err(_) => Run { count, pos: n, nodes: acc },
        }
    }
}

} // verus!
