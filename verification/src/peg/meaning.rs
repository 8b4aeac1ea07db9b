//! What the syntax tree of a grammar text means: the rules that it defines.
//!
//! The tree is the one that the grammar of `rules` produces, compacted and
//! then pruned of the rule `_`. Blank values and end-of-line nodes may stand
//! between the parts of a rule, of a choice, of a sequence and of a
//! parenthesis; they carry no meaning.

use vstd::prelude::*;
use crate::ast::compact_spec;
use crate::ast::names_of;
use crate::ast::prune_spec;
use crate::ast::NodeView;
use crate::error::ErrorView;
use crate::expression::dot_view;
use crate::expression::lit_view;
use crate::expression::match_view;
use crate::expression::not_view;
use crate::expression::rep_view;
use crate::expression::ExprView;

verus! {

/// The mathematical value that an error of this module stands for.
pub enum PegErrorView {
    Peg(Seq<char>, Option<Box<PegErrorView>>),
    Parser(ErrorView),
}

/// An error of the compiler without a cause.
pub open spec fn peg_error(descr: Seq<char>) -> PegErrorView {
    PegErrorView::Peg(descr, None)
}

/// The result `r`, its error put under the context `descr`.
pub open spec fn pushed<T>(descr: Seq<char>, r: Result<T, PegErrorView>) -> Result<
    T,
    PegErrorView,
> {
    match r {
        Ok(v) => Ok(v),
        Err(e) => Err(PegErrorView::Peg(descr, Some(Box::new(e)))),
    }
}

/// Whether every character of `text` is a space.
pub open spec fn is_blank(text: Seq<char>) -> bool {
    forall|i: int| 0 <= i < text.len() ==> text[i] == ' '
}

/// Whether the node only separates: a blank value or an end of line.
pub open spec fn is_filler(node: NodeView) -> bool {
    match node {
        NodeView::Val(text) => is_blank(text),
        NodeView::Rule(name, _) => name == "eol"@ || name == "_eol"@ || name == "_1"@,
        NodeView::EOF => false,
    }
}

/// The index of the first node at or after `i` that is no filler; the length
/// of `nodes` if there is none.
pub open spec fn next_item(nodes: Seq<NodeView>, i: int) -> int
    decreases nodes.len() - i,
{
    if i < 0 || i >= nodes.len() {
        nodes.len() as int
    } else if is_filler(nodes[i]) {
        next_item(nodes, i + 1)
    } else {
        i
    }
}

/// The children of the rule node `node` named `name`.
pub open spec fn children_of(node: NodeView, name: Seq<char>) -> Result<
    Seq<NodeView>,
    PegErrorView,
> {
    match node {
        NodeView::Rule(found, nodes) => if found == name {
            Ok(nodes)
        } else {
            Err(peg_error("expected node "@ + name))
        },
        _ => Err(peg_error("expected node "@ + name)),
    }
}

/// Whether the node is a rule node named `name`.
pub open spec fn is_named(node: NodeView, name: Seq<char>) -> bool {
    node matches NodeView::Rule(found, _) && found == name
}

// ---------------------------------------------------------------------------
// Terminals

/// The name that a `symbol` node holds.
pub open spec fn compile_symbol(node: NodeView) -> Result<Seq<char>, PegErrorView> {
    match children_of(node, "symbol"@) {
        Err(e) => Err(e),
        Ok(nodes) => if nodes.len() == 1 && nodes[0] is Val {
            Ok(nodes[0]->Val_0)
        } else {
            Err(peg_error("symbol: expected one value"@))
        },
    }
}

/// The character that stands after a backslash for `c`.
pub open spec fn escaped(c: char) -> char {
    if c == 'n' {
        '\n'
    } else if c == 'r' {
        '\r'
    } else if c == 't' {
        '\t'
    } else {
        c
    }
}

/// The text of `raw` from index `i` on with each backslash and the character
/// after it replaced by the character they stand for.
pub open spec fn unescape(raw: Seq<char>, i: int) -> Seq<char>
    decreases raw.len() - i,
{
    if i < 0 || i >= raw.len() {
        Seq::empty()
    } else if raw[i] == '\\' && i + 1 < raw.len() {
        seq![escaped(raw[i + 1])] + unescape(raw, i + 2)
    } else {
        seq![raw[i]] + unescape(raw, i + 1)
    }
}

/// Whether the node is a quote node that holds one double quote.
pub open spec fn is_quote(node: NodeView) -> bool {
    node matches NodeView::Rule(name, nodes) && name == "_\""@ && nodes.len() == 1 && nodes[0]
        == NodeView::Val("\""@)
}

/// The literal of a `literal` node: the text between its quotes, unescaped.
pub open spec fn compile_literal(node: NodeView) -> Result<ExprView, PegErrorView> {
    match children_of(node, "literal"@) {
        Err(e) => Err(e),
        Ok(nodes) => if nodes.len() == 2 && is_quote(nodes[0]) && is_quote(nodes[1]) {
            Ok(lit_view(Seq::empty()))
        } else if nodes.len() == 3 && is_quote(nodes[0]) && nodes[1] is Val && is_quote(nodes[2]) {
            Ok(lit_view(unescape(nodes[1]->Val_0, 0)))
        } else {
            Err(peg_error("literal: expected quoted text"@))
        },
    }
}

/// The characters that an `mchars` node lists.
pub open spec fn class_chars(node: NodeView) -> Option<Seq<char>> {
    match node {
        NodeView::Rule(name, nodes) => if name == "mchars"@ && nodes.len() == 1 && nodes[0] is Val {
            Some(nodes[0]->Val_0)
        } else {
            None
        },
        _ => None,
    }
}

/// The range that an `mbetween` node holds: its first and last character,
/// with a hyphen between them.
pub open spec fn class_range(node: NodeView) -> Option<(char, char)> {
    match node {
        NodeView::Rule(name, nodes) => if name == "mbetween"@ && nodes.len() == 1 && nodes[0] is Val
            && nodes[0]->Val_0.len() == 3 && nodes[0]->Val_0[1] == '-' {
            Some((nodes[0]->Val_0[0], nodes[0]->Val_0[2]))
        } else {
            None
        },
        _ => None,
    }
}

/// The ranges of the nodes from index `i` up to index `end`, added to `acc`,
/// if each of them is a range.
pub open spec fn class_ranges(
    nodes: Seq<NodeView>,
    i: int,
    end: int,
    acc: Seq<(char, char)>,
) -> Option<Seq<(char, char)>>
    decreases end - i,
{
    if i < 0 || i >= end || i >= nodes.len() {
        Some(acc)
    } else {
        match class_range(nodes[i]) {
            Some(range) => class_ranges(nodes, i + 1, end, acc.push(range)),
            None => None,
        }
    }
}

/// The character class of a `match` node: between the brackets the listed
/// characters, if any, and then the ranges.
pub open spec fn compile_match(node: NodeView) -> Result<ExprView, PegErrorView> {
    match children_of(node, "match"@) {
        Err(e) => Err(e),
        Ok(nodes) => if nodes.len() >= 2 && nodes[0] == NodeView::Val("["@) && nodes.last()
            == NodeView::Val("]"@) {
            let listed = if nodes.len() > 2 {
                class_chars(nodes[1])
            } else {
                None
            };
            let chars = match listed {
                Some(chars) => chars,
                None => Seq::empty(),
            };
            let from = if listed is Some {
                2int
            } else {
                1int
            };
            match class_ranges(nodes, from, nodes.len() - 1, Seq::empty()) {
                Some(ranges) => Ok(match_view(chars, ranges)),
                None => Err(peg_error("match: expected ranges"@)),
            }
        } else {
            Err(peg_error("match: expected brackets"@))
        },
    }
}

/// The expression of a `dot` node.
pub open spec fn compile_dot(node: NodeView) -> Result<ExprView, PegErrorView> {
    match children_of(node, "dot"@) {
        Err(e) => Err(e),
        Ok(nodes) => if nodes.len() == 1 && nodes[0] == NodeView::Val("."@) {
            Ok(dot_view())
        } else {
            Err(peg_error("dot: expected ."@))
        },
    }
}

/// The expression of an `atom` node: that of its only child, a literal, a
/// character class, a dot, or a symbol that refers to a rule.
pub open spec fn compile_atom(node: NodeView) -> Result<ExprView, PegErrorView> {
    match children_of(node, "atom"@) {
        Err(e) => Err(e),
        Ok(nodes) => if nodes.len() != 1 {
            Err(peg_error("atom: expected one node"@))
        } else if is_named(nodes[0], "literal"@) {
            compile_literal(nodes[0])
        } else if is_named(nodes[0], "match"@) {
            compile_match(nodes[0])
        } else if is_named(nodes[0], "dot"@) {
            compile_dot(nodes[0])
        } else if is_named(nodes[0], "symbol"@) {
            match compile_symbol(nodes[0]) {
                Ok(name) => Ok(ExprView::RuleName(name)),
                Err(e) => Err(e),
            }
        } else {
            Err(peg_error("atom: unknown node"@))
        },
    }
}

// ---------------------------------------------------------------------------
// Expressions

/// The only expression of `items`, or their combination by `many`.
pub open spec fn one_or(items: Seq<ExprView>, many: ExprView) -> ExprView {
    if items.len() == 1 {
        items[0]
    } else {
        many
    }
}

/// `e` repeated as the indicator `node` says: `+` once or more, `*` any number
/// of times, `?` at most once.
pub open spec fn repetition(e: ExprView, node: NodeView) -> Result<ExprView, PegErrorView> {
    if node == NodeView::Val("+"@) {
        Ok(rep_view(e, 1, None))
    } else if node == NodeView::Val("*"@) {
        Ok(rep_view(e, 0, None))
    } else if node == NodeView::Val("?"@) {
        Ok(rep_view(e, 0, Some(1nat)))
    } else {
        Err(peg_error("repetition symbol unknown"@))
    }
}

/// The expression of an `expr` node: that of its only child, an `or` node.
pub open spec fn compile_expr(node: NodeView) -> Result<ExprView, PegErrorView>
    decreases node, 0nat,
{
    match children_of(node, "expr"@) {
        Err(e) => Err(e),
        Ok(nodes) => if nodes.len() == 1 {
            compile_or(nodes[0])
        } else {
            Err(peg_error("expr: expected one node"@))
        },
    }
}

/// The expression of an `or` node: its only alternative, or the choice among
/// its alternatives.
pub open spec fn compile_or(node: NodeView) -> Result<ExprView, PegErrorView>
    decreases node, 1nat,
{
    match or_items(node) {
        Ok(items) => Ok(one_or(items, ExprView::Or(items))),
        Err(e) => Err(e),
    }
}

/// The alternatives of an `or` node: the expression of its `and` node, and
/// after each `/` the alternatives of the `or` node that follows.
pub open spec fn or_items(node: NodeView) -> Result<Seq<ExprView>, PegErrorView>
    decreases node, 0nat,
{
    match node {
        NodeView::Rule(name, nodes) => {
            let first = next_item(nodes, 0);
            if name != "or"@ {
                Err(peg_error("expected node or"@))
            } else if 0 <= first < nodes.len() {
                match compile_and(nodes[first]) {
                    Ok(head) => or_rest(nodes, first + 1, true, seq![head]),
                    Err(e) => Err(e),
                }
            } else {
                Err(peg_error("or: expected and"@))
            }
        },
        _ => Err(peg_error("expected node or"@)),
    }
}

/// The alternatives `acc` and those of the nodes from index `i` on, where a
/// `/` is expected next iff `separator`.
pub open spec fn or_rest(
    nodes: Seq<NodeView>,
    i: int,
    separator: bool,
    acc: Seq<ExprView>,
) -> Result<Seq<ExprView>, PegErrorView>
    decreases nodes, nodes.len() - i,
{
    if i < 0 || i >= nodes.len() {
        if separator {
            Ok(acc)
        } else {
            Err(peg_error("or: expected or after /"@))
        }
    } else if is_filler(nodes[i]) {
        or_rest(nodes, i + 1, separator, acc)
    } else if separator {
        if nodes[i] == NodeView::Val("/"@) {
            or_rest(nodes, i + 1, false, acc)
        } else {
            Err(peg_error("or: expected /"@))
        }
    } else {
        match or_items(nodes[i]) {
            Ok(items) => or_rest(nodes, i + 1, true, acc + items),
            Err(e) => Err(e),
        }
    }
}

/// The expression of an `and` node: its only part, or the sequence of its parts.
pub open spec fn compile_and(node: NodeView) -> Result<ExprView, PegErrorView>
    decreases node, 1nat,
{
    match and_items(node) {
        Ok(items) => Ok(one_or(items, ExprView::And(items))),
        Err(e) => Err(e),
    }
}

/// The parts of an `and` node: the expression of its `rep_or_neg` node, and
/// the parts of each `and` node that follows.
pub open spec fn and_items(node: NodeView) -> Result<Seq<ExprView>, PegErrorView>
    decreases node, 0nat,
{
    match node {
        NodeView::Rule(name, nodes) => {
            let first = next_item(nodes, 0);
            if name != "and"@ {
                Err(peg_error("expected node and"@))
            } else if 0 <= first < nodes.len() {
                match compile_rep_or_neg(nodes[first]) {
                    Ok(head) => and_rest(nodes, first + 1, seq![head]),
                    Err(e) => Err(e),
                }
            } else {
                Err(peg_error("and: expected rep_or_neg"@))
            }
        },
        _ => Err(peg_error("expected node and"@)),
    }
}

/// The parts `acc` and those of the `and` nodes from index `i` on.
pub open spec fn and_rest(nodes: Seq<NodeView>, i: int, acc: Seq<ExprView>) -> Result<
    Seq<ExprView>,
    PegErrorView,
>
    decreases nodes, nodes.len() - i,
{
    if i < 0 || i >= nodes.len() {
        Ok(acc)
    } else if is_filler(nodes[i]) {
        and_rest(nodes, i + 1, acc)
    } else {
        match and_items(nodes[i]) {
            Ok(items) => and_rest(nodes, i + 1, acc + items),
            Err(e) => Err(e),
        }
    }
}

/// The expression of a `rep_or_neg` node: the negation of what follows a `!`,
/// or an expression, repeated as the indicator after it says, if there is one.
pub open spec fn compile_rep_or_neg(node: NodeView) -> Result<ExprView, PegErrorView>
    decreases node, 0nat,
{
    match node {
        NodeView::Rule(name, nodes) => if name != "rep_or_neg"@ {
            Err(peg_error("expected node rep_or_neg"@))
        } else if nodes.len() == 2 && nodes[0] == NodeView::Val("!"@) {
            match compile_atom_or_par(nodes[1]) {
                Ok(e) => Ok(not_view(e)),
                Err(e) => Err(e),
            }
        } else if nodes.len() == 1 {
            compile_atom_or_par(nodes[0])
        } else if nodes.len() == 2 {
            match compile_atom_or_par(nodes[0]) {
                Ok(e) => repetition(e, nodes[1]),
                Err(e) => Err(e),
            }
        } else {
            Err(peg_error("rep_or_neg: expected one or two nodes"@))
        },
        _ => Err(peg_error("expected node rep_or_neg"@)),
    }
}

/// The expression of an `atom_or_par` node: that of its only child, an atom
/// or a parenthesis.
pub open spec fn compile_atom_or_par(node: NodeView) -> Result<ExprView, PegErrorView>
    decreases node, 0nat,
{
    match node {
        NodeView::Rule(name, nodes) => if name != "atom_or_par"@ {
            Err(peg_error("expected node atom_or_par"@))
        } else if nodes.len() != 1 {
            Err(peg_error("atom_or_par: expected one node"@))
        } else if is_named(nodes[0], "atom"@) {
            compile_atom(nodes[0])
        } else if is_named(nodes[0], "parenth"@) {
            compile_parenth(nodes[0])
        } else {
            Err(peg_error("atom_or_par: unknown node"@))
        },
        _ => Err(peg_error("expected node atom_or_par"@)),
    }
}

/// The expression of a `parenth` node: that of the `expr` node between its
/// parentheses.
pub open spec fn compile_parenth(node: NodeView) -> Result<ExprView, PegErrorView>
    decreases node, 0nat,
{
    match node {
        NodeView::Rule(name, nodes) => {
            let open = next_item(nodes, 0);
            let inner = next_item(nodes, open + 1);
            let close = next_item(nodes, inner + 1);
            let end = next_item(nodes, close + 1);
            if name != "parenth"@ {
                Err(peg_error("expected node parenth"@))
            } else if 0 <= open < nodes.len() && 0 <= inner < nodes.len() && 0 <= close
                < nodes.len() && end >= nodes.len() && nodes[open] == NodeView::Val("("@)
                && nodes[close] == NodeView::Val(")"@) {
                compile_expr(nodes[inner])
            } else {
                Err(peg_error("parenth: expected ( expr )"@))
            }
        },
        _ => Err(peg_error("expected node parenth"@)),
    }
}

// ---------------------------------------------------------------------------
// Rules

/// The expression of a rule whose symbol is the node at index `head` of
/// `nodes`: after the symbol a `=` and one `expr` node, and nothing else.
pub open spec fn rule_body(nodes: Seq<NodeView>, head: int) -> Result<ExprView, PegErrorView> {
    let equals = next_item(nodes, head + 1);
    let body = next_item(nodes, equals + 1);
    let end = next_item(nodes, body + 1);
    if 0 <= equals < nodes.len() && 0 <= body < nodes.len() && end >= nodes.len() && nodes[equals]
        == NodeView::Val("="@) {
        compile_expr(nodes[body])
    } else {
        Err(peg_error("rule: expected = expr"@))
    }
}

/// The name and the expression of a `rule` node; an error in what follows the
/// symbol comes under the context of the rule's name.
pub open spec fn rule_parts(node: NodeView) -> Result<(Seq<char>, ExprView), PegErrorView> {
    match children_of(node, "rule"@) {
        Err(e) => Err(e),
        Ok(nodes) => {
            let head = next_item(nodes, 0);
            if 0 <= head < nodes.len() {
                match compile_symbol(nodes[head]) {
                    Err(e) => Err(e),
                    Ok(name) => match pushed("r:("@ + name + ")"@, rule_body(nodes, head)) {
                        Ok(e) => Ok((name, e)),
                        Err(e) => Err(e),
                    },
                }
            } else {
                Err(peg_error("rule: expected symbol"@))
            }
        },
    }
}

/// The name and the expression of a `rule` node: its symbol, a `=`, and its
/// `expr` node.
pub open spec fn compile_rule(node: NodeView) -> Result<(Seq<char>, ExprView), PegErrorView> {
    pushed("consuming rule"@, rule_parts(node))
}

/// The rules `acc` and those of the `rule` nodes from index `i` on; a later
/// rule replaces an earlier one of the same name.
pub open spec fn grammar_rules(
    nodes: Seq<NodeView>,
    i: int,
    acc: Map<Seq<char>, ExprView>,
) -> Result<Map<Seq<char>, ExprView>, PegErrorView>
    decreases nodes.len() - i,
{
    if i < 0 || i >= nodes.len() {
        Ok(acc)
    } else {
        match compile_rule(nodes[i]) {
            Ok((name, e)) => grammar_rules(nodes, i + 1, acc.insert(name, e)),
            Err(e) => Err(e),
        }
    }
}

/// The rules of the `rule` nodes that are the children of a `grammar` node.
pub open spec fn grammar_parts(node: NodeView) -> Result<Map<Seq<char>, ExprView>, PegErrorView> {
    match children_of(node, "grammar"@) {
        Err(e) => Err(e),
        Ok(nodes) => grammar_rules(nodes, 0, Map::empty()),
    }
}

/// The rules of a `grammar` node: those of its `rule` nodes.
pub open spec fn compile_grammar(node: NodeView) -> Result<Map<Seq<char>, ExprView>, PegErrorView> {
    pushed("consuming grammar"@, grammar_parts(node))
}

/// The rules of the tree of a grammar text: those of the `grammar` node that
/// is the only child of its root `main`.
pub open spec fn compile_main(tree: NodeView) -> Result<Map<Seq<char>, ExprView>, PegErrorView> {
    match children_of(tree, "main"@) {
        Err(e) => Err(e),
        Ok(nodes) => if nodes.len() == 1 {
            compile_grammar(nodes[0])
        } else {
            Err(peg_error("main: expected one node"@))
        },
    }
}

/// The rules that the tree `ast` of a grammar text defines: the tree is
/// compacted, pruned of the rule `_`, and compiled.
pub open spec fn rules_from_ast_spec(ast: NodeView) -> Result<
    Map<Seq<char>, ExprView>,
    PegErrorView,
> {
    compile_main(prune_spec(compact_spec(ast), names_of(seq!["_"])))
}

} // verus!
