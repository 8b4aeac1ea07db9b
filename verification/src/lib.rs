//! A dynamic parser for parsing expression grammars: rule sets are plain data
//! built at run time, and input is parsed against them into a syntax tree.

use vstd::prelude::*;
use vstd::string::StringExecFns;

pub mod ast;
pub mod atom;
pub mod error;
pub mod expression;
pub mod laws;
pub mod parser;
pub mod peg;
pub mod semantics;
pub mod text;
pub mod tree_laws;

pub use crate::error::Error;
pub use crate::error::ErrorKind;
pub use crate::expression::Expression;
pub use crate::expression::MultiExpr;
pub use crate::expression::NRep;
pub use crate::expression::RepInfo;
pub use crate::expression::SetOfRules;
pub use crate::text::text2parse;
pub use crate::text::Position;
pub use crate::text::Text2Parse;

use crate::ast::compact_spec;
use crate::ast::nodes_view;
use crate::ast::Node;
use crate::ast::NodeView;
use crate::error::error;
use crate::error::failure;
use crate::error::ErrorView;
use crate::expression::ExprView;
use crate::parser::parse_rule_name;
use crate::parser::Status;
use crate::semantics::eval;

verus! {

/// The name of a rule.
#[derive(Debug, PartialEq, Eq, Hash)]
pub struct Symbol(pub String);

impl View for Symbol {
    type V = Seq<char>;

    open spec fn view(&self) -> Seq<char> {
        self.0@
    }
}

/// The symbol named `s`.
pub fn symbol(s: &str) -> (sym: Symbol)
    ensures
        sym@ == s@,
{
    Symbol(String::from_str(s))
}

/// The tree of parsing `text` from its start with the rule `symbol`, compacted;
/// input that the rule leaves over is ignored.
pub open spec fn parse_symbol_spec(
    text: Seq<char>,
    symbol: Seq<char>,
    rules: Map<Seq<char>, ExprView>,
) -> Result<NodeView, ErrorView> {
    match eval(rules, text, rules.len(), rules.len(), ExprView::RuleName(symbol), 0) {
        Ok(p) => Ok(compact_spec(p.nodes[0])),
        Err(f) => Err(f),
    }
}

/// The tree of parsing `text` with the rule `main`.
pub open spec fn parse_spec(text: Seq<char>, rules: Map<Seq<char>, ExprView>) -> Result<
    NodeView,
    ErrorView,
> {
    parse_symbol_spec(text, "main"@, rules)
}

/// The tree of parsing all of `text` with the rule `main`: where the rule
/// leaves input over, the parse fails at the offset that the rule reached.
pub open spec fn parse_strict_spec(text: Seq<char>, rules: Map<Seq<char>, ExprView>) -> Result<
    NodeView,
    ErrorView,
> {
    match eval(rules, text, rules.len(), rules.len(), ExprView::RuleName("main"@), 0) {
        Ok(p) => if p.pos == text.len() {
            Ok(compact_spec(p.nodes[0]))
        } else {
            Err(failure(text, p.pos, ErrorKind::TrailingInput, "input left over"@))
        },
        Err(f) => Err(f),
    }
}

/// Whether the result `r` holds the tree or the error that `expected` holds.
pub open spec fn tree_result_is(r: Result<Node, Error>, expected: Result<NodeView, ErrorView>) -> bool {
    match expected {
        Ok(tree) => r matches Ok(node) && node@ == tree,
        Err(f) => r matches Err(e) && e@ == f,
    }
}

/// Parses `text2parse` from its start with the rule `symbol` of `rules`.
pub fn parse_symbol(text2parse: &Text2Parse, symbol: &Symbol, rules: &SetOfRules) -> (r: Result<
    Node,
    Error,
>)
    ensures
        tree_result_is(r, parse_symbol_spec(text2parse@, symbol@, rules@)),
{
    let status = Status::init(text2parse, rules);
    match parse_rule_name(status, symbol.0.as_str()) {
        Ok((_, nodes)) => {
            assert(nodes_view(nodes@).len() == 1);
            Ok(nodes[0].compact())
        },
        Err(e) => Err(e),
    }
}

/// Parses `s` with the rule `main` of `rules`: the compacted tree of the rule,
/// or the error. Input that the rule leaves over is ignored.
pub fn parse(s: &str, rules: &SetOfRules) -> (r: Result<Node, Error>)
    ensures
        tree_result_is(r, parse_spec(s@, rules@)),
{
    let text = Text2Parse::new(s);
    parse_symbol(&text, &symbol("main"), rules)
}

/// Parses all of `s` with the rule `main` of `rules`: as `parse`, but input
/// that the rule leaves over is an error.
pub fn parse_strict(s: &str, rules: &SetOfRules) -> (r: Result<Node, Error>)
    ensures
        tree_result_is(r, parse_strict_spec(s@, rules@)),
{
    let text = Text2Parse::new(s);
    let status = Status::init(&text, rules);
    match parse_rule_name(status, "main") {
        Ok((st, nodes)) => {
            assert(nodes_view(nodes@).len() == 1);
            if st.pos.n == text.len() {
                Ok(nodes[0].compact())
            } else {
                Err(error(&st.pos, ErrorKind::TrailingInput, "input left over"))
            }
        },
        Err(e) => Err(e),
    }
}

} // verus!
