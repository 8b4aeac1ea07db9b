use dynparser::ast::Node;
use dynparser::expression::{and, dot, ematch, lit, not, or, ref_rule, rep};
use dynparser::peg::rules::parse_peg;
use dynparser::peg::{rules_from_ast, rules_from_peg, Error};
use dynparser::{parse, parse_strict, ErrorKind, Expression, MultiExpr};

fn val(text: &str) -> Node {
    Node::Val(text.to_string())
}

fn rule(name: &str, nodes: Vec<Node>) -> Node {
    Node::Rule(name.to_string(), nodes)
}

fn main_of(peg: &str) -> Expression {
    let rules = rules_from_peg(peg).unwrap();
    rebuild(rules.get("main").unwrap())
}

fn rebuild(e: &Expression) -> Expression {
    match e {
        Expression::Simple(dynparser::atom::Atom::Literal(s)) => lit(s),
        Expression::Simple(dynparser::atom::Atom::Dot) => dot(),
        Expression::Simple(dynparser::atom::Atom::Match(class)) => {
            let chars: String = class.chars.iter().collect();
            ematch(&chars, class.ranges.clone())
        }
        Expression::And(multi) => and(MultiExpr::new(multi.0.iter().map(rebuild).collect())),
        Expression::Or(multi) => or(MultiExpr::new(multi.0.iter().map(rebuild).collect())),
        Expression::Not(inner) => not(rebuild(inner)),
        Expression::Repeat(info) => {
            rep(rebuild(&info.expression), info.min.0, info.max.as_ref().map(|m| m.0))
        }
        Expression::RuleName(name) => ref_rule(name),
    }
}

#[test]
fn single_parts_pass_through() {
    assert_eq!(main_of("main = \"a\"\n"), lit("a"));
    assert_eq!(main_of("main = .\n"), dot());
    assert_eq!(main_of("main = other\nother = .\n"), ref_rule("other"));
    assert_eq!(main_of("main = (\"a\")\n"), lit("a"));
    assert_eq!(main_of("main = ( ( \"a\" ) )\n"), lit("a"));
}

#[test]
fn sequences_and_choices_are_flat() {
    assert_eq!(
        main_of("main = \"a\" \"b\"   \"c\"\n"),
        and(MultiExpr::new(vec![lit("a"), lit("b"), lit("c")]))
    );
    assert_eq!(
        main_of("main = \"a\" / \"b\"/\"c\"\n"),
        or(MultiExpr::new(vec![lit("a"), lit("b"), lit("c")]))
    );
    assert_eq!(
        main_of("main = \"a\" \"b\" / \"c\"\n"),
        or(MultiExpr::new(vec![and(MultiExpr::new(vec![lit("a"), lit("b")])), lit("c")]))
    );
    assert_eq!(
        main_of("main = \"a\" (\"b\" / \"c\")\n"),
        and(MultiExpr::new(vec![lit("a"), or(MultiExpr::new(vec![lit("b"), lit("c")]))]))
    );
}

#[test]
fn repetition_indicators() {
    assert_eq!(main_of("main = \"a\"+\n"), rep(lit("a"), 1, None));
    assert_eq!(main_of("main = \"a\"*\n"), rep(lit("a"), 0, None));
    assert_eq!(main_of("main = \"a\"?\n"), rep(lit("a"), 0, Some(1)));
    assert_eq!(main_of("main = (\"a\" .)+\n"), rep(and(MultiExpr::new(vec![lit("a"), dot()])), 1, None));
    assert_eq!(main_of("main = !\"a\"\n"), not(lit("a")));
    assert_eq!(main_of("main = !(. \"a\") .\n"), and(MultiExpr::new(vec![
        not(and(MultiExpr::new(vec![dot(), lit("a")]))),
        dot(),
    ])));
}

#[test]
fn literals_are_unescaped() {
    assert_eq!(main_of("main = \"a\\\"b\"\n"), lit("a\"b"));
    assert_eq!(main_of("main = \"a\\\\b\"\n"), lit("a\\b"));
    assert_eq!(main_of("main = \"a\\nb\\rc\\td\"\n"), lit("a\nb\rc\td"));
    assert_eq!(main_of("main = \"\\q\"\n"), lit("q"));
    assert_eq!(main_of("main = \"\"\n"), lit(""));
    assert_eq!(main_of("main = \" \"\n"), lit(" "));
    assert_eq!(main_of("main = \"  a  \"\n"), lit("  a  "));
}

#[test]
fn character_classes() {
    assert_eq!(main_of("main = [abc]\n"), ematch("abc", vec![]));
    assert_eq!(main_of("main = [a-z]\n"), ematch("", vec![('a', 'z')]));
    assert_eq!(
        main_of("main = [_abcA-Z0-9]\n"),
        ematch("_abc", vec![('A', 'Z'), ('0', '9')])
    );
    assert_eq!(main_of("main = [ a-c]\n"), ematch(" ", vec![('a', 'c')]));
}

#[test]
fn compiled_classes_match() {
    let rules = rules_from_peg("main = [_a-c]+ [0-9]\n").unwrap();
    assert_eq!(parse("ab_c7", &rules).unwrap().text(), "ab_c7");
    assert!(parse("ab_d7", &rules).is_err());
}

#[test]
fn rules_span_lines() {
    let peg = "\n\n  main = a\n       / b\n\n  a = \"x\"\n       \"y\"\n  b = \"z\"\n\n";
    let rules = rules_from_peg(peg).unwrap();
    assert_eq!(rules.get("main"), Some(&or(MultiExpr::new(vec![ref_rule("a"), ref_rule("b")]))));
    assert_eq!(rules.get("a"), Some(&and(MultiExpr::new(vec![lit("x"), lit("y")]))));
    assert_eq!(rules.get("b"), Some(&lit("z")));
    assert_eq!(rules.get("c"), None);
}

#[test]
fn later_definition_replaces_earlier() {
    let rules = rules_from_peg("main = \"a\"\nmain = \"b\"\n").unwrap();
    assert_eq!(rules.get("main"), Some(&lit("b")));
}

#[test]
fn grammar_text_must_end_its_last_rule_with_a_line_end() {
    assert!(rules_from_peg("main = \"a\"").is_err());
    assert!(rules_from_peg("main = \"a\"\r\n").is_ok());
    assert!(rules_from_peg("main = \"a\"\r").is_ok());
    assert!(rules_from_peg("").is_err());
}

#[test]
fn text_that_does_not_parse_gives_a_parser_error() {
    match rules_from_peg("main = \n") {
        Err(Error::Parser(e)) => {
            assert_eq!(e.kind, ErrorKind::TooFewRepetitions);
            assert_eq!(e.pos.n, 0);
        }
        other => panic!("unexpected {:?}", other.err()),
    }
    match rules_from_peg("main = \"a\"\n)") {
        Err(Error::Parser(e)) => {
            assert_eq!(e.kind, ErrorKind::TrailingInput);
            assert_eq!((e.pos.n, e.pos.row, e.pos.col), (11, 1, 0));
        }
        other => panic!("unexpected {:?}", other.err()),
    }
}

#[test]
fn trees_of_another_shape_give_a_chain_of_contexts() {
    let err = rules_from_ast(&val("x")).err().unwrap();
    assert_eq!(err.message(), "expected node main");
    let err = rules_from_ast(&rule("main", vec![])).err().unwrap();
    assert_eq!(err.message(), "main: expected one node");
    let err = rules_from_ast(&rule("main", vec![rule("grammar", vec![rule("rule", vec![])])]))
        .err()
        .unwrap();
    assert_eq!(err.message(), "consuming grammar > consuming rule > rule: expected symbol");
    let symbol = rule("symbol", vec![val("main")]);
    let tree = rule("main", vec![rule("grammar", vec![rule("rule", vec![symbol, val("=")])])]);
    let err = rules_from_ast(&tree).err().unwrap();
    assert_eq!(
        err.message(),
        "consuming grammar > consuming rule > r:(main) > rule: expected = expr"
    );
    match err {
        Error::Peg((descr, Some(cause))) => {
            assert_eq!(descr, "consuming grammar");
            assert_eq!(cause.message(), "consuming rule > r:(main) > rule: expected = expr");
        }
        _ => panic!("expected a chain"),
    }
}

#[test]
fn unknown_repetition_symbol_is_reported() {
    let atom = rule("atom_or_par", vec![rule("atom", vec![rule("dot", vec![val(".")])])]);
    let and_node = rule("and", vec![rule("rep_or_neg", vec![atom, val("#")])]);
    let expr = rule("expr", vec![rule("or", vec![and_node])]);
    let symbol = rule("symbol", vec![val("main")]);
    let tree = rule("main", vec![rule("grammar", vec![rule("rule", vec![symbol, val("="), expr])])]);
    let err = rules_from_ast(&tree).err().unwrap();
    assert_eq!(
        err.message(),
        "consuming grammar > consuming rule > r:(main) > repetition symbol unknown"
    );
}

#[test]
fn hand_made_tree_compiles() {
    let atom = rule("atom_or_par", vec![rule("atom", vec![rule("dot", vec![val(".")])])]);
    let and_node = rule("and", vec![rule("rep_or_neg", vec![atom, val("+")])]);
    let expr = rule("expr", vec![val("  "), rule("or", vec![and_node])]);
    let symbol = rule("symbol", vec![val("main")]);
    let parts = vec![val(" "), symbol, val(""), val("="), rule("_", vec![val(" ")]), expr];
    let tree = rule("main", vec![rule("grammar", vec![rule("rule", parts)])]);
    let err = rules_from_ast(&tree).err().unwrap();
    assert_eq!(
        err.message(),
        "consuming grammar > consuming rule > r:(main) > expr: expected one node"
    );
    let expr = rule("expr", vec![rule("or", vec![rule("and", vec![rule(
        "rep_or_neg",
        vec![rule("atom_or_par", vec![rule("atom", vec![rule("dot", vec![val(".")])])]), val("+")],
    )])])]);
    let symbol = rule("symbol", vec![val("main")]);
    let parts = vec![val(" "), symbol, val(""), val("="), rule("_", vec![val(" ")]), expr];
    let tree = rule("main", vec![rule("grammar", vec![rule("rule", parts)])]);
    let rules = rules_from_ast(&tree).ok().unwrap();
    assert_eq!(rules.get("main"), Some(&rep(dot(), 1, None)));
}

#[test]
fn the_grammar_of_grammars_reads_itself() {
    let peg = r#"
main         = grammar
grammar      = rule+
rule         = _ symbol _ "=" _ expr _eol _
expr         = or
or           = and ( _ "/" _ or )*
and          = rep_or_neg ( _1 _ !(symbol _ "=") and )*
rep_or_neg   = atom_or_par ("*" / "+" / "?")?  /  "!" atom_or_par
atom_or_par  = atom / parenth
parenth      = "(" _ expr _ ")"
atom         = literal / match / dot / symbol
literal      = _" ( ("\\" .) / (!_" .) )* _"
_"           = "\""
match        = "[" ( (mchars mbetween*) / mbetween+ ) "]"
mchars       = ( !"]" !(. "-") . )+
mbetween     = . "-" .
dot          = "."
symbol       = [_'a-zA-Z0-9] [_'"a-zA-Z0-9]*
_            = ( " " / eol )*
_eol         = " "* eol
_1           = " " / eol
eol          = "\r\n" / "\n" / "\r"
"#;
    let compiled = rules_from_peg(peg).unwrap();
    let built = parse_peg();
    let names = [
        "main", "grammar", "rule", "expr", "or", "and", "rep_or_neg", "atom_or_par", "parenth",
        "atom", "literal", "_\"", "match", "mchars", "mbetween", "dot", "symbol", "_", "_eol",
        "_1", "eol",
    ];
    for name in names {
        assert_eq!(compiled.get(name), built.get(name), "rule {}", name);
        assert!(built.get(name).is_some());
    }
    let sample = "main = \"a\" / [b-d]+\n";
    assert_eq!(parse_strict(sample, &compiled), parse_strict(sample, &built));
    assert!(parse_strict(sample, &built).is_ok());
}
