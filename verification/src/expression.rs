//! Parsing expressions, rule sets, and functions that build them.

use vstd::prelude::*;
use vstd::hash_map::StringHashMap;
use vstd::string::StringExecFns;
use crate::atom::Atom;
use crate::atom::AtomView;
use crate::atom::CharClass;
use crate::text::chars_of;

verus! {

/// A number of repetitions.
#[derive(Debug, PartialEq, Eq)]
pub struct NRep(pub usize);

/// A list of expressions: the parts of a sequence or the alternatives of a choice.
#[derive(Debug, PartialEq, Eq)]
pub struct MultiExpr(pub Vec<Expression>);

/// A repeated expression with the least number of matches asked for and, if
/// there is one, the greatest number taken.
#[derive(Debug, PartialEq, Eq)]
pub struct RepInfo {
    pub expression: Box<Expression>,
    pub min: NRep,
    pub max: Option<NRep>,
}

/// A parsing expression.
#[derive(Debug, PartialEq, Eq)]
pub enum Expression {
    /// A terminal.
    Simple(Atom),
    /// A sequence: every part must match, one after the other.
    And(MultiExpr),
    /// An ordered choice: the first alternative that matches wins.
    Or(MultiExpr),
    /// A negative lookahead: matches, consuming nothing, iff the expression does not.
    Not(Box<Expression>),
    /// A greedy repetition.
    Repeat(RepInfo),
    /// A reference to the rule of this name.
    RuleName(String),
}

/// The mathematical value that an `Expression` stands for.
pub enum ExprView {
    Simple(AtomView),
    And(Seq<ExprView>),
    Or(Seq<ExprView>),
    Not(Box<ExprView>),
    Repeat(Box<ExprView>, nat, Option<nat>),
    RuleName(Seq<char>),
}

pub open spec fn expr_view(e: Expression) -> ExprView
    decreases e,
{
    match e {
        Expression::Simple(atom) => ExprView::Simple(atom@),
        Expression::And(multi) => ExprView::And(exprs_view(multi.0@)),
        Expression::Or(multi) => ExprView::Or(exprs_view(multi.0@)),
        Expression::Not(inner) => ExprView::Not(Box::new(expr_view(*inner))),
        Expression::Repeat(info) => ExprView::Repeat(
            Box::new(expr_view(*info.expression)),
            info.min.0 as nat,
            match info.max {
                Some(max) => Some(max.0 as nat),
                None => None,
            },
        ),
        Expression::RuleName(name) => ExprView::RuleName(name@),
    }
}

/// The views of a sequence of expressions, one for one.
pub open spec fn exprs_view(exprs: Seq<Expression>) -> Seq<ExprView>
    decreases exprs,
{
    Seq::new(
        exprs.len(),
        |i: int|
            if 0 <= i < exprs.len() {
                expr_view(exprs[i])
            } else {
                ExprView::RuleName(Seq::empty())
            },
    )
}

impl View for Expression {
    type V = ExprView;

    open spec fn view(&self) -> ExprView {
        expr_view(*self)
    }
}

impl View for MultiExpr {
    type V = Seq<ExprView>;

    open spec fn view(&self) -> Seq<ExprView> {
        exprs_view(self.0@)
    }
}

impl MultiExpr {
    /// The list of the expressions of `v`.
    pub fn new(v: Vec<Expression>) -> (multi: MultiExpr)
        ensures
            multi.0 == v,
            multi@ == exprs_view(v@),
    {
        MultiExpr(v)
    }

    /// The list with `e` added at its end.
    pub fn with(self, e: Expression) -> (multi: MultiExpr)
        ensures
            multi@ == self@.push(e@),
    {
        let mut v = self.0;
        v.push(e);
        assert(exprs_view(v@) =~= exprs_view(self.0@).push(e@));
        MultiExpr(v)
    }
}

impl RepInfo {
    /// `expression` repeated at least `min` times and, where `max` is given,
    /// at most `max` times.
    pub fn new(expression: Box<Expression>, min: usize, max: Option<usize>) -> (info: RepInfo)
        ensures
            info.expression == expression,
            info.min.0 == min,
            match max {
                Some(m) => info.max matches Some(top) && top.0 == m,
                None => info.max is None,
            },
    {
        RepInfo {
            expression,
            min: NRep(min),
            max: match max {
                Some(m) => Some(NRep(m)),
                None => None,
            },
        }
    }
}

// ---------------------------------------------------------------------------
// Building expressions

/// What `lit` builds.
pub open spec fn lit_view(s: Seq<char>) -> ExprView {
    ExprView::Simple(AtomView::Literal(s))
}

/// What `dot` builds.
pub open spec fn dot_view() -> ExprView {
    ExprView::Simple(AtomView::Dot)
}

/// What `ematch` builds.
pub open spec fn match_view(chars: Seq<char>, ranges: Seq<(char, char)>) -> ExprView {
    ExprView::Simple(AtomView::Match(crate::atom::CharClassView { chars, ranges }))
}

/// What `not` builds.
pub open spec fn not_view(e: ExprView) -> ExprView {
    ExprView::Not(Box::new(e))
}

/// What `rep` builds.
pub open spec fn rep_view(e: ExprView, min: nat, max: Option<nat>) -> ExprView {
    ExprView::Repeat(Box::new(e), min, max)
}

/// The bound of a repetition as a number.
pub open spec fn bound_view(max: Option<usize>) -> Option<nat> {
    match max {
        Some(m) => Some(m as nat),
        None => None,
    }
}

/// The literal `s`.
pub fn lit(s: &str) -> (e: Expression)
    ensures
        e@ == lit_view(s@),
{
    Expression::Simple(Atom::Literal(String::from_str(s)))
}

/// Any one character.
pub fn dot() -> (e: Expression)
    ensures
        e@ == dot_view(),
{
    Expression::Simple(Atom::Dot)
}

/// One character out of `chars` or out of one of the inclusive `ranges`.
pub fn ematch(chars: &str, ranges: Vec<(char, char)>) -> (e: Expression)
    ensures
        e@ == match_view(chars@, ranges@),
{
    Expression::Simple(Atom::Match(CharClass { chars: chars_of(chars), ranges }))
}

/// The sequence of `parts`.
pub fn and(parts: MultiExpr) -> (e: Expression)
    ensures
        e@ == ExprView::And(parts@),
{
    Expression::And(parts)
}

/// The ordered choice among `alternatives`.
pub fn or(alternatives: MultiExpr) -> (e: Expression)
    ensures
        e@ == ExprView::Or(alternatives@),
{
    Expression::Or(alternatives)
}

/// The negative lookahead of `inner`.
pub fn not(inner: Expression) -> (e: Expression)
    ensures
        e@ == not_view(inner@),
{
    Expression::Not(Box::new(inner))
}

/// `inner` repeated at least `min` times and, where `max` is given, at most
/// `max` times.
pub fn rep(inner: Expression, min: usize, max: Option<usize>) -> (e: Expression)
    ensures
        e@ == rep_view(inner@, min as nat, bound_view(max)),
{
    Expression::Repeat(RepInfo::new(Box::new(inner), min, max))
}

/// A reference to the rule `name`.
pub fn ref_rule(name: &str) -> (e: Expression)
    ensures
        e@ == ExprView::RuleName(name@),
{
    Expression::RuleName(String::from_str(name))
}

// ---------------------------------------------------------------------------
// Rule sets

/// A set of rules: each name has at most one expression.
pub struct SetOfRules {
    rules: StringHashMap<Expression>,
}

impl View for SetOfRules {
    type V = Map<Seq<char>, ExprView>;

    closed spec fn view(&self) -> Map<Seq<char>, ExprView> {
        self.rules@.map_values(|e: Expression| e@)
    }
}

/// The rules that a list of named expressions gives: where a name comes
/// twice, the later expression replaces the earlier.
pub open spec fn rules_of(pairs: Seq<(String, Expression)>) -> Map<Seq<char>, ExprView>
    decreases pairs.len(),
{
    if pairs.len() == 0 {
        Map::empty()
    } else {
        rules_of(pairs.drop_last()).insert(pairs.last().0@, pairs.last().1@)
    }
}

impl SetOfRules {
    /// The rule set that holds the rules of `mrules`.
    pub fn new(mrules: Vec<(String, Expression)>) -> (rules: SetOfRules)
        ensures
            rules@ == rules_of(mrules@),
    {
        let mut set = SetOfRules { rules: StringHashMap::new() };
        assert(set@ =~= Map::<Seq<char>, ExprView>::empty());
        let ghost all = mrules@;
        for pair in it: mrules
            invariant
                it.seq() == all,
                set@ == rules_of(all.take(it.index() as int)),
        {
            let ghost before = set@;
            let ghost done = it.index() as int;
            let (name, expr) = pair;
            set.rules.insert(name, expr);
            proof {
                assert(all.take(done + 1).drop_last() =~= all.take(done));
                assert(set@ =~= before.insert(name@, expr@));
            }
        }
        proof {
            assert(all.take(all.len() as int) =~= all);
        }
        set
    }

    /// The rule set with the rule `name` set to `expr`; a rule of that name
    /// that was there before is replaced.
    pub fn add(self, name: &str, expr: Expression) -> (rules: SetOfRules)
        ensures
            rules@ == self@.insert(name@, expr@),
    {
        let mut set = self;
        set.rules.insert(String::from_str(name), expr);
        assert(set@ =~= self@.insert(name@, expr@));
        set
    }

    /// The number of rules.
    pub fn len(&self) -> (n: usize)
        ensures
            n == self@.len(),
    {
        proof {
            assert(self@.dom() =~= self.rules@.dom());
        }
        self.rules.len()
    }

    /// The expression of the rule `name`, if there is one.
    pub fn get(&self, name: &str) -> (found: Option<&Expression>)
        ensures
            match found {
                Some(expr) => self@.contains_key(name@) && self@[name@] == expr@,
                None => !self@.contains_key(name@),
            },
    {
        self.rules.get(name)
    }
}

} // verus!
