//! Rule sets from grammars written as text: the text is parsed with the
//! grammar of `rules`, and the tree is compiled into a rule set.

use vstd::prelude::*;
use vstd::string::StringExecFns;
use crate::ast::nodes_view;
use crate::ast::Node;
use crate::ast::NodeView;
use crate::atom::Atom;
use crate::atom::CharClass;
use crate::expression::exprs_view;
use crate::expression::not;
use crate::expression::rep;
use crate::expression::Expression;
use crate::expression::ExprView;
use crate::expression::MultiExpr;
use crate::expression::SetOfRules;
use crate::parse_strict;
use crate::parse_strict_spec;
use crate::peg::meaning::and_items;
use crate::peg::meaning::and_rest;
use crate::peg::meaning::children_of;
use crate::peg::meaning::class_chars;
use crate::peg::meaning::class_range;
use crate::peg::meaning::class_ranges;
use crate::peg::meaning::compile_and;
use crate::peg::meaning::compile_atom;
use crate::peg::meaning::compile_atom_or_par;
use crate::peg::meaning::compile_dot;
use crate::peg::meaning::compile_expr;
use crate::peg::meaning::compile_grammar;
use crate::peg::meaning::compile_literal;
use crate::peg::meaning::compile_match;
use crate::peg::meaning::compile_or;
use crate::peg::meaning::compile_parenth;
use crate::peg::meaning::compile_rep_or_neg;
use crate::peg::meaning::compile_rule;
use crate::peg::meaning::compile_symbol;
use crate::peg::meaning::escaped;
use crate::peg::meaning::grammar_parts;
use crate::peg::meaning::grammar_rules;
use crate::peg::meaning::is_blank;
use crate::peg::meaning::is_filler;
use crate::peg::meaning::is_quote;
use crate::peg::meaning::next_item;
use crate::peg::meaning::or_items;
use crate::peg::meaning::or_rest;
use crate::peg::meaning::peg_error;
use crate::peg::meaning::repetition;
use crate::peg::meaning::rule_body;
use crate::peg::meaning::rule_parts;
use crate::peg::meaning::rules_from_ast_spec;
use crate::peg::meaning::unescape;
use crate::peg::meaning::PegErrorView;
use crate::text::chars_of;

pub mod meaning;
pub mod rules;

verus! {

/// An error of `rules_from_peg`.
#[derive(Debug, PartialEq, Eq)]
pub enum Error {
    /// The tree of the grammar text has not the shape expected: what was
    /// expected, and the error that this one gives the context of, if any.
    Peg((String, Option<Box<Error>>)),
    /// The grammar text does not parse.
    Parser(crate::error::Error),
}

pub open spec fn peg_error_view(e: Error) -> PegErrorView
    decreases e,
{
    match e {
        Error::Peg(pair) => PegErrorView::Peg(
            pair.0@,
            match pair.1 {
                Some(inner) => Some(Box::new(peg_error_view(*inner))),
                None => None,
            },
        ),
        Error::Parser(e) => PegErrorView::Parser(e@),
    }
}

impl View for Error {
    type V = PegErrorView;

    open spec fn view(&self) -> PegErrorView {
        peg_error_view(*self)
    }
}

/// The text of an error: its description, then those of its causes, each
/// after ` > `; of an error of the parser, its text between `Parser(` and `)`.
pub open spec fn message_of(e: PegErrorView) -> Seq<char>
    decreases e,
{
    match e {
        PegErrorView::Peg(descr, Some(inner)) => descr + " > "@ + message_of(*inner),
        PegErrorView::Peg(descr, None) => descr,
        PegErrorView::Parser(e) => "Parser("@ + crate::error::message_of(e) + ")"@,
    }
}

/// An error without a cause that says `s`.
fn error_peg_s(s: &str) -> (e: Error)
    ensures
        e@ == peg_error(s@),
{
    Error::Peg((String::from_str(s), None))
}

impl Error {
    /// The error `self` under the context `desc`.
    pub fn push(self, desc: &str) -> (e: Error)
        ensures
            e@ == PegErrorView::Peg(desc@, Some(Box::new(self@))),
    {
        Error::Peg((String::from_str(desc), Some(Box::new(self))))
    }

    /// The text of the error; see `message_of`.
    pub fn message(&self) -> (text: String)
        ensures
            text@ == message_of(self@),
        decreases self,
    {
        match self {
            Error::Peg((descr, Some(inner))) => {
                descr.clone().concat(" > ").concat(inner.message().as_str())
            },
            Error::Peg((descr, None)) => descr.clone(),
            Error::Parser(e) => String::from_str("Parser(").concat(e.message().as_str()).concat(
                ")",
            ),
        }
    }
}

impl From<crate::error::Error> for Error {
    fn from(e: crate::error::Error) -> (r: Error) {
        Error::Parser(e)
    }
}

impl vstd::std_specs::convert::FromSpecImpl<crate::error::Error> for Error {
    open spec fn obeys_from_spec() -> bool {
        true
    }

    open spec fn from_spec(e: crate::error::Error) -> Error {
        Error::Parser(e)
    }
}

// ---------------------------------------------------------------------------
// What results say

/// Whether `r` holds the expression or the error that `expected` holds.
pub open spec fn expr_is(r: Result<Expression, Error>, expected: Result<ExprView, PegErrorView>) -> bool {
    match expected {
        Ok(v) => r matches Ok(e) && e@ == v,
        Err(f) => r matches Err(e) && e@ == f,
    }
}

/// Whether `r` holds the expressions or the error that `expected` holds.
pub open spec fn exprs_are(
    r: Result<Vec<Expression>, Error>,
    expected: Result<Seq<ExprView>, PegErrorView>,
) -> bool {
    match expected {
        Ok(v) => r matches Ok(e) && exprs_view(e@) == v,
        Err(f) => r matches Err(e) && e@ == f,
    }
}

/// Whether `r` holds the named expression or the error that `expected` holds.
pub open spec fn rule_is(
    r: Result<(String, Expression), Error>,
    expected: Result<(Seq<char>, ExprView), PegErrorView>,
) -> bool {
    match expected {
        Ok(v) => r matches Ok(rule) && rule.0@ == v.0 && rule.1@ == v.1,
        Err(f) => r matches Err(e) && e@ == f,
    }
}

/// Whether `r` holds the rules or the error that `expected` holds.
pub open spec fn rules_are(
    r: Result<SetOfRules, Error>,
    expected: Result<Map<Seq<char>, ExprView>, PegErrorView>,
) -> bool {
    match expected {
        Ok(v) => r matches Ok(rules) && rules@ == v,
        Err(f) => r matches Err(e) && e@ == f,
    }
}

/// The rules that the grammar text `peg` defines: the text is parsed in full
/// with the grammar of `rules`, and the tree is compiled.
pub open spec fn rules_from_peg_spec(peg: Seq<char>) -> Result<
    Map<Seq<char>, ExprView>,
    PegErrorView,
> {
    match parse_strict_spec(peg, rules::peg_grammar()) {
        Ok(tree) => rules_from_ast_spec(tree),
        Err(f) => Err(PegErrorView::Parser(f)),
    }
}

// ---------------------------------------------------------------------------
// A P I

/// The rule set that the grammar text `peg` defines, or why it defines none:
/// the text does not parse in full, or its tree has an unexpected shape.
pub fn rules_from_peg(peg: &str) -> (r: Result<SetOfRules, Error>)
    ensures
        rules_are(r, rules_from_peg_spec(peg@)),
{
    match parse_strict(peg, &rules::parse_peg()) {
        Ok(ast) => rules_from_ast(&ast),
        Err(e) => Err(Error::from(e)),
    }
}

/// The rule set that the tree `ast` of a grammar text defines. The tree is
/// taken as the parse with the grammar of `rules` gives it: it is compacted
/// and pruned of the rule `_` here.
pub fn rules_from_ast(ast: &Node) -> (r: Result<SetOfRules, Error>)
    ensures
        rules_are(r, rules_from_ast_spec(ast@)),
{
    let mut names: Vec<&str> = Vec::new();
    names.push("_");
    assert(names@ =~= seq!["_"]);
    let tree = ast.compact().prune(names.as_slice());
    match consume_node(&tree, "main") {
        Err(e) => Err(e),
        Ok(nodes) => {
            if nodes.len() == 1 {
                consume_grammar(&nodes[0])
            } else {
                Err(error_peg_s("main: expected one node"))
            }
        },
    }
}

// ---------------------------------------------------------------------------
// Nodes

/// Whether `node` is the value `text`.
fn is_val(node: &Node, text: &str) -> (same: bool)
    ensures
        same == (node@ == NodeView::Val(text@)),
{
    match node {
        Node::Val(found) => found.as_str().eq(text),
        _ => false,
    }
}

/// Whether `node` is a rule node named `name`.
fn is_rule(node: &Node, name: &str) -> (same: bool)
    ensures
        same == crate::peg::meaning::is_named(node@, name@),
{
    match node {
        Node::Rule(found, _) => found.as_str().eq(name),
        _ => false,
    }
}

/// The children of the rule node `node` named `name`.
fn consume_node<'a>(node: &'a Node, name: &str) -> (r: Result<&'a Vec<Node>, Error>)
    ensures
        match children_of(node@, name@) {
            Ok(v) => r matches Ok(nodes) && nodes_view(nodes@) == v && *node is Rule
                && node->Rule_1 == *nodes,
            Err(f) => r matches Err(e) && e@ == f,
        },
{
    match node {
        Node::Rule(found, nodes) => {
            if found.as_str().eq(name) {
                Ok(nodes)
            } else {
                let descr = String::from_str("expected node ").concat(name);
                Err(error_peg_s(descr.as_str()))
            }
        },
        _ => {
            let descr = String::from_str("expected node ").concat(name);
            Err(error_peg_s(descr.as_str()))
        },
    }
}

/// Whether every character of `s` is a space.
fn is_blank_text(s: &str) -> (blank: bool)
    ensures
        blank == is_blank(s@),
{
    for c in it: s.chars()
        invariant
            it.seq() == s@,
            forall|j: int| 0 <= j < it.index() ==> s@[j] == ' ',
    {
        if c != ' ' {
            return false;
        }
    }
    true
}

/// Whether `node` only separates.
fn is_filler_node(node: &Node) -> (filler: bool)
    ensures
        filler == is_filler(node@),
{
    match node {
        Node::Val(text) => is_blank_text(text.as_str()),
        Node::Rule(name, _) => name.as_str().eq("eol") || name.as_str().eq("_eol")
            || name.as_str().eq("_1"),
        Node::EOF => false,
    }
}

/// The index of the first node at or after `i` that is no filler.
fn skip_filler(nodes: &Vec<Node>, i: usize) -> (j: usize)
    ensures
        j == next_item(nodes_view(nodes@), i as int),
        j <= nodes.len(),
        i <= nodes.len() ==> i <= j,
{
    let mut j = i;
    while j < nodes.len() && is_filler_node(&nodes[j])
        invariant
            i <= j,
            next_item(nodes_view(nodes@), i as int) == next_item(nodes_view(nodes@), j as int),
        decreases nodes.len() - j,
    {
        j += 1;
    }
    if j > nodes.len() {
        nodes.len()
    } else {
        j
    }
}

// ---------------------------------------------------------------------------
// Rules

/// The rules of a `grammar` node; an error comes under the context of the grammar.
fn consume_grammar(node: &Node) -> (r: Result<SetOfRules, Error>)
    ensures
        rules_are(r, compile_grammar(node@)),
{
    match grammar_of(node) {
        Ok(rules) => Ok(rules),
        Err(e) => Err(e.push("consuming grammar")),
    }
}

/// The rules of the `rule` nodes that are the children of a `grammar` node.
fn grammar_of(node: &Node) -> (r: Result<SetOfRules, Error>)
    ensures
        rules_are(r, grammar_parts(node@)),
{
    match consume_node(node, "grammar") {
        Err(e) => Err(e),
        Ok(nodes) => {
            let mut rules = SetOfRules::new(Vec::new());
            let mut i: usize = 0;
            while i < nodes.len()
                invariant
                    i <= nodes.len(),
                    grammar_parts(node@) == grammar_rules(nodes_view(nodes@), i as int, rules@),
                decreases nodes.len() - i,
            {
                match consume_rule(&nodes[i]) {
                    Ok((name, expr)) => {
                        rules = rules.add(name.as_str(), expr);
                    },
                    Err(e) => {
                        return Err(e);
                    },
                }
                i += 1;
            }
            Ok(rules)
        },
    }
}

/// The name and the expression of a `rule` node; an error comes under the
/// context of the rule.
fn consume_rule(node: &Node) -> (r: Result<(String, Expression), Error>)
    ensures
        rule_is(r, compile_rule(node@)),
{
    match rule_of(node) {
        Ok(rule) => Ok(rule),
        Err(e) => Err(e.push("consuming rule")),
    }
}

/// The name and the expression of a `rule` node; an error in what follows
/// the symbol comes under the context of the rule's name.
fn rule_of(node: &Node) -> (r: Result<(String, Expression), Error>)
    ensures
        rule_is(r, rule_parts(node@)),
{
    match consume_node(node, "rule") {
        Err(e) => Err(e),
        Ok(nodes) => {
            let head = skip_filler(nodes, 0);
            if head >= nodes.len() {
                return Err(error_peg_s("rule: expected symbol"));
            }
            match consume_symbol(&nodes[head]) {
                Err(e) => Err(e),
                Ok(name) => {
                    match rule_body_of(nodes, head) {
                        Ok(expr) => Ok((name, expr)),
                        Err(e) => {
                            let context = String::from_str("r:(").concat(name.as_str()).concat(")");
                            Err(e.push(context.as_str()))
                        },
                    }
                },
            }
        },
    }
}

/// The expression of a rule whose symbol is the node at index `head`.
fn rule_body_of(nodes: &Vec<Node>, head: usize) -> (r: Result<Expression, Error>)
    requires
        head < nodes.len(),
    ensures
        expr_is(r, rule_body(nodes_view(nodes@), head as int)),
{
    let equals = skip_filler(nodes, head + 1);
    if equals >= nodes.len() {
        return Err(error_peg_s("rule: expected = expr"));
    }
    let body = skip_filler(nodes, equals + 1);
    if body >= nodes.len() {
        return Err(error_peg_s("rule: expected = expr"));
    }
    let end = skip_filler(nodes, body + 1);
    if end >= nodes.len() && is_val(&nodes[equals], "=") {
        consume_peg_expr(&nodes[body])
    } else {
        Err(error_peg_s("rule: expected = expr"))
    }
}

/// The name that a `symbol` node holds.
fn consume_symbol(node: &Node) -> (r: Result<String, Error>)
    ensures
        match compile_symbol(node@) {
            Ok(v) => r matches Ok(name) && name@ == v,
            Err(f) => r matches Err(e) && e@ == f,
        },
{
    match consume_node(node, "symbol") {
        Err(e) => Err(e),
        Ok(nodes) => {
            if nodes.len() == 1 {
                match &nodes[0] {
                    Node::Val(name) => Ok(name.clone()),
                    _ => Err(error_peg_s("symbol: expected one value")),
                }
            } else {
                Err(error_peg_s("symbol: expected one value"))
            }
        },
    }
}

// ---------------------------------------------------------------------------
// Expressions

/// The expression of an `expr` node.
fn consume_peg_expr(node: &Node) -> (r: Result<Expression, Error>)
    ensures
        expr_is(r, compile_expr(node@)),
    decreases node, 0nat,
{
    match consume_node(node, "expr") {
        Err(e) => Err(e),
        Ok(nodes) => {
            if nodes.len() == 1 {
                proof {
                    assert(decreases_to!(*node => node->Rule_1));
                    assert(decreases_to!(*nodes => nodes[0]));
                }
                consume_or(&nodes[0])
            } else {
                Err(error_peg_s("expr: expected one node"))
            }
        },
    }
}

/// The expression of an `or` node: its only alternative, or the choice among
/// its alternatives.
fn consume_or(node: &Node) -> (r: Result<Expression, Error>)
    ensures
        expr_is(r, compile_or(node@)),
    decreases node, 1nat,
{
    match rec_consume_or(node) {
        Ok(items) => {
            let mut items = items;
            if items.len() == 1 {
                Ok(items.remove(0))
            } else {
                Ok(Expression::Or(MultiExpr(items)))
            }
        },
        Err(e) => Err(e),
    }
}

/// The alternatives of an `or` node, those of the `or` nodes inside it included.
#[verifier::loop_isolation(false)]
fn rec_consume_or(node: &Node) -> (r: Result<Vec<Expression>, Error>)
    ensures
        exprs_are(r, or_items(node@)),
    decreases node, 0nat,
{
    match node {
        Node::Rule(name, nodes) => {
            if !name.as_str().eq("or") {
                return Err(error_peg_s("expected node or"));
            }
            let first = skip_filler(nodes, 0);
            if first >= nodes.len() {
                return Err(error_peg_s("or: expected and"));
            }
            proof {
                assert(decreases_to!(*node => node->Rule_1));
                assert(decreases_to!(*nodes => nodes[first as int]));
            }
            let head = match consume_and(&nodes[first]) {
                Ok(e) => e,
                Err(e) => {
                    return Err(e);
                },
            };
            let mut acc: Vec<Expression> = Vec::new();
            acc.push(head);
            assert(exprs_view(acc@) =~= seq![head@]);
            let mut separator = true;
            let mut i: usize = first + 1;
            while i < nodes.len()
                invariant
                    i <= nodes.len(),
                    or_items(node@) == or_rest(
                        nodes_view(nodes@),
                        i as int,
                        separator,
                        exprs_view(acc@),
                    ),
                decreases nodes.len() - i,
            {
                if is_filler_node(&nodes[i]) {
                } else if separator {
                    if is_val(&nodes[i], "/") {
                        separator = false;
                    } else {
                        return Err(error_peg_s("or: expected /"));
                    }
                } else {
                    proof {
                        assert(decreases_to!(*nodes => nodes[i as int]));
                    }
                    let ghost before = acc@;
                    match rec_consume_or(&nodes[i]) {
                        Ok(items) => {
                            let mut items = items;
                            assert(exprs_view(before + items@) =~= exprs_view(before) + exprs_view(
                                items@,
                            ));
                            acc.append(&mut items);
                            separator = true;
                        },
                        Err(e) => {
                            return Err(e);
                        },
                    }
                }
                i += 1;
            }
            if separator {
                Ok(acc)
            } else {
                Err(error_peg_s("or: expected or after /"))
            }
        },
        _ => Err(error_peg_s("expected node or")),
    }
}

/// The expression of an `and` node: its only part, or the sequence of its parts.
fn consume_and(node: &Node) -> (r: Result<Expression, Error>)
    ensures
        expr_is(r, compile_and(node@)),
    decreases node, 1nat,
{
    match rec_consume_and(node) {
        Ok(items) => {
            let mut items = items;
            if items.len() == 1 {
                Ok(items.remove(0))
            } else {
                Ok(Expression::And(MultiExpr(items)))
            }
        },
        Err(e) => Err(e),
    }
}

/// The parts of an `and` node, those of the `and` nodes inside it included.
#[verifier::loop_isolation(false)]
fn rec_consume_and(node: &Node) -> (r: Result<Vec<Expression>, Error>)
    ensures
        exprs_are(r, and_items(node@)),
    decreases node, 0nat,
{
    match node {
        Node::Rule(name, nodes) => {
            if !name.as_str().eq("and") {
                return Err(error_peg_s("expected node and"));
            }
            let first = skip_filler(nodes, 0);
            if first >= nodes.len() {
                return Err(error_peg_s("and: expected rep_or_neg"));
            }
            proof {
                assert(decreases_to!(*node => node->Rule_1));
                assert(decreases_to!(*nodes => nodes[first as int]));
            }
            let head = match consume_rep_or_neg(&nodes[first]) {
                Ok(e) => e,
                Err(e) => {
                    return Err(e);
                },
            };
            let mut acc: Vec<Expression> = Vec::new();
            acc.push(head);
            assert(exprs_view(acc@) =~= seq![head@]);
            let mut i: usize = first + 1;
            while i < nodes.len()
                invariant
                    i <= nodes.len(),
                    and_items(node@) == and_rest(nodes_view(nodes@), i as int, exprs_view(acc@)),
                decreases nodes.len() - i,
            {
                if !is_filler_node(&nodes[i]) {
                    proof {
                        assert(decreases_to!(*nodes => nodes[i as int]));
                    }
                    let ghost before = acc@;
                    match rec_consume_and(&nodes[i]) {
                        Ok(items) => {
                            let mut items = items;
                            assert(exprs_view(before + items@) =~= exprs_view(before) + exprs_view(
                                items@,
                            ));
                            acc.append(&mut items);
                        },
                        Err(e) => {
                            return Err(e);
                        },
                    }
                }
                i += 1;
            }
            Ok(acc)
        },
        _ => Err(error_peg_s("expected node and")),
    }
}

/// The expression of a `rep_or_neg` node: a negation, or an expression that
/// may be repeated.
fn consume_rep_or_neg(node: &Node) -> (r: Result<Expression, Error>)
    ensures
        expr_is(r, compile_rep_or_neg(node@)),
    decreases node, 0nat,
{
    match node {
        Node::Rule(name, nodes) => {
            proof {
                assert(decreases_to!(*node => node->Rule_1));
            }
            if !name.as_str().eq("rep_or_neg") {
                Err(error_peg_s("expected node rep_or_neg"))
            } else if nodes.len() == 2 && is_val(&nodes[0], "!") {
                proof {
                    assert(decreases_to!(*nodes => nodes[1]));
                }
                match consume_atom_or_par(&nodes[1]) {
                    Ok(e) => Ok(not(e)),
                    Err(e) => Err(e),
                }
            } else if nodes.len() == 1 {
                proof {
                    assert(decreases_to!(*nodes => nodes[0]));
                }
                consume_atom_or_par(&nodes[0])
            } else if nodes.len() == 2 {
                proof {
                    assert(decreases_to!(*nodes => nodes[0]));
                }
                match consume_atom_or_par(&nodes[0]) {
                    Ok(e) => process_repetition_indicator(e, &nodes[1]),
                    Err(e) => Err(e),
                }
            } else {
                Err(error_peg_s("rep_or_neg: expected one or two nodes"))
            }
        },
        _ => Err(error_peg_s("expected node rep_or_neg")),
    }
}

/// `expr` repeated as the indicator `node` says.
fn process_repetition_indicator(expr: Expression, node: &Node) -> (r: Result<Expression, Error>)
    ensures
        expr_is(r, repetition(expr@, node@)),
{
    if is_val(node, "+") {
        Ok(rep(expr, 1, None))
    } else if is_val(node, "*") {
        Ok(rep(expr, 0, None))
    } else if is_val(node, "?") {
        Ok(rep(expr, 0, Some(1)))
    } else {
        Err(error_peg_s("repetition symbol unknown"))
    }
}

/// The expression of an `atom_or_par` node.
fn consume_atom_or_par(node: &Node) -> (r: Result<Expression, Error>)
    ensures
        expr_is(r, compile_atom_or_par(node@)),
    decreases node, 0nat,
{
    match node {
        Node::Rule(name, nodes) => {
            if !name.as_str().eq("atom_or_par") {
                Err(error_peg_s("expected node atom_or_par"))
            } else if nodes.len() != 1 {
                Err(error_peg_s("atom_or_par: expected one node"))
            } else if is_rule(&nodes[0], "atom") {
                consume_atom(&nodes[0])
            } else if is_rule(&nodes[0], "parenth") {
                proof {
                    assert(decreases_to!(*node => node->Rule_1));
                    assert(decreases_to!(*nodes => nodes[0]));
                }
                consume_parenth(&nodes[0])
            } else {
                Err(error_peg_s("atom_or_par: unknown node"))
            }
        },
        _ => Err(error_peg_s("expected node atom_or_par")),
    }
}

/// The expression between the parentheses of a `parenth` node.
fn consume_parenth(node: &Node) -> (r: Result<Expression, Error>)
    ensures
        expr_is(r, compile_parenth(node@)),
    decreases node, 0nat,
{
    match node {
        Node::Rule(name, nodes) => {
            if !name.as_str().eq("parenth") {
                return Err(error_peg_s("expected node parenth"));
            }
            let open = skip_filler(nodes, 0);
            if open >= nodes.len() {
                return Err(error_peg_s("parenth: expected ( expr )"));
            }
            let inner = skip_filler(nodes, open + 1);
            if inner >= nodes.len() {
                return Err(error_peg_s("parenth: expected ( expr )"));
            }
            let close = skip_filler(nodes, inner + 1);
            if close >= nodes.len() {
                return Err(error_peg_s("parenth: expected ( expr )"));
            }
            let end = skip_filler(nodes, close + 1);
            if end >= nodes.len() && is_val(&nodes[open], "(") && is_val(&nodes[close], ")") {
                proof {
                    assert(decreases_to!(*node => node->Rule_1));
                    assert(decreases_to!(*nodes => nodes[inner as int]));
                }
                consume_peg_expr(&nodes[inner])
            } else {
                Err(error_peg_s("parenth: expected ( expr )"))
            }
        },
        _ => Err(error_peg_s("expected node parenth")),
    }
}

// ---------------------------------------------------------------------------
// Terminals

/// The expression of an `atom` node.
fn consume_atom(node: &Node) -> (r: Result<Expression, Error>)
    ensures
        expr_is(r, compile_atom(node@)),
{
    match consume_node(node, "atom") {
        Err(e) => Err(e),
        Ok(nodes) => {
            if nodes.len() != 1 {
                Err(error_peg_s("atom: expected one node"))
            } else if is_rule(&nodes[0], "literal") {
                consume_literal(&nodes[0])
            } else if is_rule(&nodes[0], "match") {
                consume_match(&nodes[0])
            } else if is_rule(&nodes[0], "dot") {
                consume_dot(&nodes[0])
            } else if is_rule(&nodes[0], "symbol") {
                consume_symbol_rule_ref(&nodes[0])
            } else {
                Err(error_peg_s("atom: unknown node"))
            }
        },
    }
}

/// The reference to the rule that a `symbol` node names.
fn consume_symbol_rule_ref(node: &Node) -> (r: Result<Expression, Error>)
    ensures
        match compile_symbol(node@) {
            Ok(name) => r matches Ok(e) && e@ == ExprView::RuleName(name),
            Err(f) => r matches Err(e) && e@ == f,
        },
{
    match consume_symbol(node) {
        Ok(name) => Ok(Expression::RuleName(name)),
        Err(e) => Err(e),
    }
}

/// The expression of a `dot` node.
fn consume_dot(node: &Node) -> (r: Result<Expression, Error>)
    ensures
        expr_is(r, compile_dot(node@)),
{
    match consume_node(node, "dot") {
        Err(e) => Err(e),
        Ok(nodes) => {
            if nodes.len() == 1 && is_val(&nodes[0], ".") {
                Ok(Expression::Simple(Atom::Dot))
            } else {
                Err(error_peg_s("dot: expected ."))
            }
        },
    }
}

/// The character that stands after a backslash for `c`.
fn escape(c: char) -> (r: char)
    ensures
        r == escaped(c),
{
    if c == 'n' {
        '\n'
    } else if c == 'r' {
        '\r'
    } else if c == 't' {
        '\t'
    } else {
        c
    }
}

/// The text `raw` with each backslash and the character after it replaced
/// by the character they stand for.
fn unescape_text(raw: &str) -> (text: String)
    ensures
        text@ == unescape(raw@, 0),
{
    let chars = chars_of(raw);
    let mut out = String::new();
    let mut i: usize = 0;
    while i < chars.len()
        invariant
            i <= chars.len(),
            chars@ == raw@,
            unescape(raw@, 0) == out@ + unescape(raw@, i as int),
        decreases chars.len() - i,
    {
        let ghost before = out@;
        if chars[i] == '\\' && i + 1 < chars.len() {
            out.push(escape(chars[i + 1]));
            proof {
                assert(before + (seq![escaped(raw@[i + 1])] + unescape(raw@, i + 2)) =~= out@
                    + unescape(raw@, i + 2));
            }
            i += 2;
        } else {
            out.push(chars[i]);
            proof {
                assert(before + (seq![raw@[i as int]] + unescape(raw@, i + 1)) =~= out@ + unescape(
                    raw@,
                    i + 1,
                ));
            }
            i += 1;
        }
    }
    proof {
        assert(out@ + Seq::<char>::empty() =~= out@);
    }
    out
}

/// Whether `node` is a quote node.
fn consume_quote(node: &Node) -> (quote: bool)
    ensures
        quote == is_quote(node@),
{
    match node {
        Node::Rule(name, nodes) => name.as_str().eq("_\"") && nodes.len() == 1 && is_val(
            &nodes[0],
            "\"",
        ),
        _ => false,
    }
}

/// The literal of a `literal` node.
fn consume_literal(node: &Node) -> (r: Result<Expression, Error>)
    ensures
        expr_is(r, compile_literal(node@)),
{
    match consume_node(node, "literal") {
        Err(e) => Err(e),
        Ok(nodes) => {
            if nodes.len() == 2 && consume_quote(&nodes[0]) && consume_quote(&nodes[1]) {
                Ok(Expression::Simple(Atom::Literal(String::new())))
            } else if nodes.len() == 3 && consume_quote(&nodes[0]) && consume_quote(&nodes[2]) {
                match &nodes[1] {
                    Node::Val(raw) => Ok(
                        Expression::Simple(Atom::Literal(unescape_text(raw.as_str()))),
                    ),
                    _ => Err(error_peg_s("literal: expected quoted text")),
                }
            } else {
                Err(error_peg_s("literal: expected quoted text"))
            }
        },
    }
}

/// The characters that an `mchars` node lists.
fn class_chars_of(node: &Node) -> (r: Option<Vec<char>>)
    ensures
        match class_chars(node@) {
            Some(v) => r matches Some(chars) && chars@ == v,
            None => r is None,
        },
{
    match node {
        Node::Rule(name, nodes) => {
            if name.as_str().eq("mchars") && nodes.len() == 1 {
                assert(nodes_view(nodes@)[0] == nodes[0]@);
                match &nodes[0] {
                    Node::Val(text) => Some(chars_of(text.as_str())),
                    _ => None,
                }
            } else {
                None
            }
        },
        _ => None,
    }
}

/// The range that an `mbetween` node holds.
fn class_range_of(node: &Node) -> (r: Option<(char, char)>)
    ensures
        r == class_range(node@),
{
    match node {
        Node::Rule(name, nodes) => {
            if name.as_str().eq("mbetween") && nodes.len() == 1 {
                assert(nodes_view(nodes@)[0] == nodes[0]@);
                match &nodes[0] {
                    Node::Val(text) => {
                        let chars = chars_of(text.as_str());
                        if chars.len() == 3 && chars[1] == '-' {
                            Some((chars[0], chars[2]))
                        } else {
                            None
                        }
                    },
                    _ => None,
                }
            } else {
                None
            }
        },
        _ => None,
    }
}

/// The character class of a `match` node.
#[verifier::loop_isolation(false)]
fn consume_match(node: &Node) -> (r: Result<Expression, Error>)
    ensures
        expr_is(r, compile_match(node@)),
{
    match consume_node(node, "match") {
        Err(e) => Err(e),
        Ok(nodes) => {
            let n = nodes.len();
            if n >= 2 && is_val(&nodes[0], "[") && is_val(&nodes[n - 1], "]") {
                let mut chars: Vec<char> = Vec::new();
                let mut from: usize = 1;
                if n > 2 {
                    match class_chars_of(&nodes[1]) {
                        Some(listed) => {
                            chars = listed;
                            from = 2;
                        },
                        None => {},
                    }
                }
                let mut ranges: Vec<(char, char)> = Vec::new();
                let mut i: usize = from;
                while i < n - 1
                    invariant
                        from <= i <= n - 1,
                        class_ranges(nodes_view(nodes@), from as int, n - 1, Seq::empty())
                            == class_ranges(nodes_view(nodes@), i as int, n - 1, ranges@),
                    decreases n - i,
                {
                    match class_range_of(&nodes[i]) {
                        Some(range) => {
                            ranges.push(range);
                        },
                        None => {
                            return Err(error_peg_s("match: expected ranges"));
                        },
                    }
                    i += 1;
                }
                Ok(Expression::Simple(Atom::Match(CharClass { chars, ranges })))
            } else {
                Err(error_peg_s("match: expected brackets"))
            }
        },
    }
}

} // verus!
