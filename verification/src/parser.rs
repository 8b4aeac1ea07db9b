//! The evaluator: recursive descent with backtracking over expressions.

use vstd::prelude::*;
use vstd::string::StringExecFns;
use crate::ast::nodes_view;
use crate::ast::lemma_nodes_view_add;
use crate::ast::lemma_nodes_view_empty;
use crate::ast::Node;
use crate::ast::NodeView;
use crate::error::add_descr_error;
use crate::error::deep_error;
use crate::error::error;
use crate::error::option_error_view;
use crate::error::Error;
use crate::error::ErrorKind;
use crate::error::ErrorView;
use crate::expression::Expression;
use crate::expression::ExprView;
use crate::expression::MultiExpr;
use crate::expression::RepInfo;
use crate::expression::SetOfRules;
use crate::semantics::eval;
use crate::semantics::eval_and;
use crate::semantics::eval_or;
use crate::semantics::eval_repeat;
use crate::semantics::Parsed;
use crate::semantics::Run;
use crate::text::position_at;
use crate::text::Position;
use crate::text::Text2Parse;

verus! {

/// A cursor of a parse: the input text, the rule set, the position reached,
/// how many rule references may still be entered before a character is
/// consumed, and the number that this budget is set back to when one is.
#[derive(Clone, Copy)]
pub struct Status<'a> {
    pub text2parse: &'a Text2Parse,
    pub rules: &'a SetOfRules,
    pub pos: Position,
    pub budget: usize,
    pub limit: usize,
}

impl<'a> Status<'a> {
    /// The position lies in the text, and its line and column are those of its offset.
    pub open spec fn wf(&self) -> bool {
        &&& self.text2parse@.len() <= usize::MAX
        &&& self.pos.n <= self.text2parse@.len()
        &&& self.pos == position_at(self.text2parse@, self.pos.n as int)
    }

    /// Whether `other` is a cursor of the same parse.
    pub open spec fn same_parse(&self, other: Status<'a>) -> bool {
        &&& self.text2parse == other.text2parse
        &&& self.rules == other.rules
        &&& self.limit == other.limit
    }

    /// The budget of a cursor that has come from `self` to offset `n`: the
    /// limit if a character was consumed on the way, else the budget of `self`.
    pub open spec fn budget_at(&self, n: int) -> int {
        if n > self.pos.n {
            self.limit as int
        } else {
            self.budget as int
        }
    }

    /// The cursor before the first character of `text2parse`, with one unit
    /// of budget for each rule of `rules`.
    pub fn init(text2parse: &'a Text2Parse, rules: &'a SetOfRules) -> (status: Status<'a>)
        ensures
            status.wf(),
            status.text2parse == text2parse,
            status.rules == rules,
            status.pos.n == 0,
            status.budget == rules@.len(),
            status.limit == rules@.len(),
    {
        proof {
            text2parse.lemma_len_fits();
        }
        let limit = rules.len();
        Status { text2parse, rules, pos: Position::start(), budget: limit, limit }
    }

    /// The cursor that has come from `self` to `pos`.
    fn moved_to(self, pos: Position) -> (status: Status<'a>)
        ensures
            status.same_parse(self),
            status.pos == pos,
            status.budget == self.budget_at(pos.n as int),
    {
        let budget = if pos.n > self.pos.n {
            self.limit
        } else {
            self.budget
        };
        Status { text2parse: self.text2parse, rules: self.rules, pos, budget, limit: self.limit }
    }

    /// The same cursor with the budget `budget`.
    fn with_budget(self, budget: usize) -> (status: Status<'a>)
        ensures
            status.same_parse(self),
            status.pos == self.pos,
            status.budget == budget,
    {
        Status {
            text2parse: self.text2parse,
            rules: self.rules,
            pos: self.pos,
            budget,
            limit: self.limit,
        }
    }
}

/// What evaluating `e` at the cursor gives; see `eval`.
pub open spec fn eval_at(status: Status, e: ExprView) -> Result<Parsed, ErrorView> {
    eval(
        status.rules@,
        status.text2parse@,
        status.limit as nat,
        status.budget as nat,
        e,
        status.pos.n as int,
    )
}

/// Whether the result `r` of a parse from `status` says what `expected` says:
/// on success a cursor of the same parse at the expected offset, not before
/// the start and not after the end of the text, and the expected nodes; on
/// failure the expected error.
pub open spec fn result_is(
    status: Status,
    r: Result<(Status, Vec<Node>), Error>,
    expected: Result<Parsed, ErrorView>,
) -> bool {
    match expected {
        Ok(p) => {
            &&& r matches Ok((st, nodes))
            &&& st.same_parse(status)
            &&& st.pos == position_at(status.text2parse@, p.pos)
            &&& status.pos.n <= p.pos <= status.text2parse@.len()
            &&& st.budget == status.budget_at(p.pos)
            &&& nodes_view(nodes@) == p.nodes
        },
        Err(f) => r matches Err(e) && e@ == f,
    }
}

/// Evaluates `expression` at the cursor.
pub fn parse_expr<'a>(status: Status<'a>, expression: &Expression) -> (r: Result<
    (Status<'a>, Vec<Node>),
    Error,
>)
    requires
        status.wf(),
    ensures
        result_is(status, r, eval_at(status, expression@)),
    decreases status.text2parse@.len() - status.pos.n, 2 * status.budget + 1, expression, 1nat,
{
    parse_partial(status, expression)
}

/// Evaluates `expression` at the cursor, by its kind.
pub fn parse_partial<'a>(status: Status<'a>, expression: &Expression) -> (r: Result<
    (Status<'a>, Vec<Node>),
    Error,
>)
    requires
        status.wf(),
    ensures
        result_is(status, r, eval_at(status, expression@)),
    decreases status.text2parse@.len() - status.pos.n, 2 * status.budget + 1, expression, 0nat,
{
    match expression {
        Expression::Simple(atom) => {
            match atom.parse(status.text2parse, status.pos) {
                Ok((pos, captured)) => {
                    let mut nodes: Vec<Node> = Vec::new();
                    nodes.push(Node::Val(captured));
                    proof {
                        assert(nodes_view(nodes@) =~= seq![NodeView::Val(captured@)]);
                    }
                    Ok((status.moved_to(pos), nodes))
                },
                Err(e) => Err(e),
            }
        },
        Expression::And(multi) => parse_and(status, multi),
        Expression::Or(multi) => parse_or(status, multi),
        Expression::Not(inner) => parse_not(status, inner),
        Expression::Repeat(info) => parse_repeat(status, info),
        Expression::RuleName(name) => parse_rule_name(status, name.as_str()),
    }
}

/// Evaluates the rule `rule_name` at the cursor: its nodes come back as the
/// children of one `Rule` node; its error comes back with the rule's name as context.
pub fn parse_rule_name<'a>(status: Status<'a>, rule_name: &str) -> (r: Result<
    (Status<'a>, Vec<Node>),
    Error,
>)
    requires
        status.wf(),
    ensures
        result_is(status, r, eval_at(status, ExprView::RuleName(rule_name@))),
    decreases status.text2parse@.len() - status.pos.n, 2 * status.budget, status.pos, 0nat,
{
    match status.rules.get(rule_name) {
        None => {
            let descr = String::from_str("missing rule ").concat(rule_name);
            Err(error(&status.pos, ErrorKind::MissingRule, descr.as_str()))
        },
        Some(expression) => {
            if status.budget == 0 {
                let descr = String::from_str("left recursion in rule ").concat(rule_name);
                return Err(error(&status.pos, ErrorKind::LeftRecursion, descr.as_str()));
            }
            let inner = status.with_budget(status.budget - 1);
            match parse_partial(inner, expression) {
                Ok((st, nodes)) => {
                    let mut out: Vec<Node> = Vec::new();
                    let node = Node::Rule(String::from_str(rule_name), nodes);
                    out.push(node);
                    proof {
                        assert(nodes_view(out@) =~= seq![
                            NodeView::Rule(rule_name@, nodes_view(nodes@)),
                        ]);
                    }
                    Ok((status.moved_to(st.pos), out))
                },
                Err(e) => Err(add_descr_error(e, rule_name)),
            }
        },
    }
}

/// Evaluates the parts of a sequence one after the other.
pub fn parse_and<'a>(status: Status<'a>, multi_expr: &MultiExpr) -> (r: Result<
    (Status<'a>, Vec<Node>),
    Error,
>)
    requires
        status.wf(),
    ensures
        result_is(status, r, eval_at(status, ExprView::And(multi_expr@))),
    decreases status.text2parse@.len() - status.pos.n, 2 * status.budget + 1, multi_expr, 0nat,
{
    let mut cur = status;
    let mut acc: Vec<Node> = Vec::new();
    let mut i: usize = 0;
    proof {
        lemma_nodes_view_empty();
    }
    while i < multi_expr.0.len()
        invariant
            i <= multi_expr.0.len(),
            status.wf(),
            cur.wf(),
            cur.same_parse(status),
            status.pos.n <= cur.pos.n,
            cur.budget == status.budget_at(cur.pos.n as int),
            eval_at(status, ExprView::And(multi_expr@)) == eval_and(
                status.rules@,
                status.text2parse@,
                status.limit as nat,
                cur.budget as nat,
                multi_expr@,
                i as int,
                cur.pos.n as int,
                nodes_view(acc@),
            ),
        decreases multi_expr.0.len() - i,
    {
        proof {
            assert(decreases_to!(*multi_expr => multi_expr.0));
            assert(decreases_to!(multi_expr.0 => multi_expr.0[i as int]));
            assert(multi_expr@[i as int] == multi_expr.0[i as int]@);
        }
        let ghost before = acc@;
        match parse_expr(cur, &multi_expr.0[i]) {
            Ok((st, mut nodes)) => {
                proof {
                    lemma_nodes_view_add(before, nodes@);
                }
                cur = st;
                acc.append(&mut nodes);
            },
            Err(e) => {
                return Err(e);
            },
        }
        i += 1;
    }
    Ok((cur, acc))
}

/// Evaluates the alternatives of a choice in order until one succeeds.
pub fn parse_or<'a>(status: Status<'a>, multi_expr: &MultiExpr) -> (r: Result<
    (Status<'a>, Vec<Node>),
    Error,
>)
    requires
        status.wf(),
    ensures
        result_is(status, r, eval_at(status, ExprView::Or(multi_expr@))),
    decreases status.text2parse@.len() - status.pos.n, 2 * status.budget + 1, multi_expr, 0nat,
{
    let mut best: Option<Error> = None;
    let mut i: usize = 0;
    while i < multi_expr.0.len()
        invariant
            i <= multi_expr.0.len(),
            status.wf(),
            eval_at(status, ExprView::Or(multi_expr@)) == eval_or(
                status.rules@,
                status.text2parse@,
                status.limit as nat,
                status.budget as nat,
                multi_expr@,
                i as int,
                status.pos.n as int,
                option_error_view(best),
            ),
        decreases multi_expr.0.len() - i,
    {
        proof {
            assert(decreases_to!(*multi_expr => multi_expr.0));
            assert(decreases_to!(multi_expr.0 => multi_expr.0[i as int]));
            assert(multi_expr@[i as int] == multi_expr.0[i as int]@);
        }
        match parse_expr(status, &multi_expr.0[i]) {
            Ok(found) => {
                return Ok(found);
            },
            Err(e) => {
                best = Some(deep_error(best, e));
            },
        }
        i += 1;
    }
    match best {
        Some(e) => Err(e),
        None => Err(error(&status.pos, ErrorKind::NoAlternative, "no alternative")),
    }
}

/// Evaluates a negative lookahead: the cursor comes back unmoved iff
/// `expression` fails.
pub fn parse_not<'a>(status: Status<'a>, expression: &Expression) -> (r: Result<
    (Status<'a>, Vec<Node>),
    Error,
>)
    requires
        status.wf(),
    ensures
        result_is(status, r, eval_at(status, ExprView::Not(Box::new(expression@)))),
        r matches Ok((st, nodes)) ==> st == status && nodes@.len() == 0,
    decreases status.text2parse@.len() - status.pos.n, 2 * status.budget + 1, expression, 2nat,
{
    match parse_partial(status, expression) {
        Ok(_) => Err(error(&status.pos, ErrorKind::NegationMatched, "negation matched")),
        Err(_) => {
            proof {
                lemma_nodes_view_empty();
            }
            Ok((status, Vec::new()))
        },
    }
}

/// The bound of a repetition as a number.
pub open spec fn max_view(info: RepInfo) -> Option<nat> {
    match info.max {
        Some(max) => Some(max.0 as nat),
        None => None,
    }
}

/// The expression that a repetition stands for.
pub open spec fn repeat_view(info: RepInfo) -> ExprView {
    ExprView::Repeat(Box::new((*info.expression)@), info.min.0 as nat, max_view(info))
}

/// Evaluates a repetition: takes iterations greedily, then checks the minimum.
pub fn parse_repeat<'a>(status: Status<'a>, rep_info: &RepInfo) -> (r: Result<
    (Status<'a>, Vec<Node>),
    Error,
>)
    requires
        status.wf(),
    ensures
        result_is(status, r, eval_at(status, repeat_view(*rep_info))),
    decreases status.text2parse@.len() - status.pos.n, 2 * status.budget + 1, rep_info, 0nat,
{
    let mut cur = status;
    let mut acc: Vec<Node> = Vec::new();
    let mut count: usize = 0;
    let mut done = false;
    let ghost inner = (*rep_info.expression)@;
    proof {
        lemma_nodes_view_empty();
    }
    while !done
        invariant
            status.wf(),
            cur.wf(),
            cur.same_parse(status),
            status.pos.n <= cur.pos.n,
            count <= cur.pos.n - status.pos.n,
            cur.budget == status.budget_at(cur.pos.n as int),
            inner == (*rep_info.expression)@,
            eval_repeat(
                status.rules@,
                status.text2parse@,
                status.limit as nat,
                status.budget as nat,
                inner,
                max_view(*rep_info),
                status.pos.n as int,
                0,
                Seq::empty(),
            ) == eval_repeat(
                status.rules@,
                status.text2parse@,
                status.limit as nat,
                cur.budget as nat,
                inner,
                max_view(*rep_info),
                cur.pos.n as int,
                count as nat,
                nodes_view(acc@),
            ),
            done ==> eval_repeat(
                status.rules@,
                status.text2parse@,
                status.limit as nat,
                cur.budget as nat,
                inner,
                max_view(*rep_info),
                cur.pos.n as int,
                count as nat,
                nodes_view(acc@),
            ) == (Run { count: count as nat, pos: cur.pos.n as int, nodes: nodes_view(acc@) }),
        decreases 2 * (status.text2parse@.len() - cur.pos.n) + (if done { 0int } else { 1int }),
    {
        let capped = match &rep_info.max {
            Some(max) => count >= max.0,
            None => false,
        };
        if capped {
            done = true;
        } else {
            proof {
                assert(decreases_to!(*rep_info => rep_info.expression));
            }
            let ghost before = acc@;
            match parse_partial(cur, &rep_info.expression) {
                Ok((st, mut nodes)) => {
                    if st.pos.n > cur.pos.n {
                        proof {
                            lemma_nodes_view_add(before, nodes@);
                        }
                        cur = st;
                        acc.append(&mut nodes);
                        count += 1;
                    } else {
                        done = true;
                    }
                },
                Err(_) => {
                    done = true;
                },
            }
        }
    }
    if count >= rep_info.min.0 {
        Ok((cur, acc))
    } else {
        Err(error(&status.pos, ErrorKind::TooFewRepetitions, "too few repetitions"))
    }
}

impl Expression {
    /// Evaluates the expression at the cursor.
    pub fn parse<'a>(&self, status: Status<'a>) -> (r: Result<(Status<'a>, Vec<Node>), Error>)
        requires
            status.wf(),
        ensures
            result_is(status, r, eval_at(status, self@)),
    {
        parse_expr(status, self)
    }
}

} // verus!
