use dynparser::ast::Node;
use dynparser::expression::{and, dot, ematch, lit, not, or, ref_rule, rep};
use dynparser::parser::{parse_expr, parse_rule_name, Status};
use dynparser::{
    parse, parse_strict, parse_symbol, symbol, text2parse, ErrorKind, Expression, MultiExpr,
    SetOfRules, Text2Parse,
};

fn val(text: &str) -> Node {
    Node::Val(text.to_string())
}

fn rule(name: &str, nodes: Vec<Node>) -> Node {
    Node::Rule(name.to_string(), nodes)
}

fn main_is(e: Expression) -> SetOfRules {
    SetOfRules::new(vec![]).add("main", e)
}

#[test]
fn literal_rule_matches_its_text() {
    let rules = main_is(lit("hello"));
    assert_eq!(parse("hello", &rules), Ok(rule("main", vec![val("hello")])));
    let err = parse("help", &rules).unwrap_err();
    assert_eq!(err.pos.n, 3);
    assert_eq!(err.pos.row, 0);
    assert_eq!(err.pos.col, 3);
    assert_eq!(err.kind, ErrorKind::LiteralMismatch);
    assert_eq!(err.descr, "main > expected literal hello");
}

#[test]
fn literal_fails_where_the_input_ends() {
    let rules = main_is(lit("hello"));
    let err = parse("he", &rules).unwrap_err();
    assert_eq!(err.pos.n, 2);
    assert_eq!(err.kind, ErrorKind::LiteralMismatch);
}

#[test]
fn empty_literal_matches_anywhere() {
    let rules = main_is(lit(""));
    assert_eq!(parse("abc", &rules), Ok(rule("main", vec![val("")])));
    assert_eq!(parse("", &rules), Ok(rule("main", vec![val("")])));
}

#[test]
fn dot_takes_one_character_of_any_width() {
    let rules = main_is(and(MultiExpr::new(vec![dot(), dot()])));
    assert_eq!(parse("\u{e9}\u{4e16}z", &rules), Ok(rule("main", vec![val("\u{e9}\u{4e16}")])));
    let err = parse("\u{e9}", &rules).unwrap_err();
    assert_eq!(err.kind, ErrorKind::UnexpectedEof);
    assert_eq!(err.pos.n, 1);
    assert_eq!(err.pos.col, 1);
}

#[test]
fn class_matches_listed_characters_and_ranges() {
    let rules = main_is(rep(ematch("_-", vec![('a', 'c'), ('0', '9')]), 1, None));
    assert_eq!(parse("a_b-c09d", &rules).unwrap().text(), "a_b-c09");
    let err = parse("d", &rules).unwrap_err();
    assert_eq!(err.kind, ErrorKind::TooFewRepetitions);
    let once = main_is(ematch("x", vec![('a', 'c')]));
    let err = parse("d", &once).unwrap_err();
    assert_eq!(err.kind, ErrorKind::ClassMismatch);
    assert_eq!(err.pos.n, 0);
    assert_eq!(parse("", &once).unwrap_err().kind, ErrorKind::ClassMismatch);
    assert!(parse("x", &once).is_ok());
    assert!(parse("c", &once).is_ok());
}

#[test]
fn sequence_threads_the_position() {
    let rules = main_is(and(MultiExpr::new(vec![lit("hello"), lit(" "), lit("world")])));
    assert_eq!(parse("hello world", &rules), Ok(rule("main", vec![val("hello world")])));
    let err = parse("hello_world", &rules).unwrap_err();
    assert_eq!(err.pos.n, 5);
    assert_eq!(err.kind, ErrorKind::LiteralMismatch);
}

#[test]
fn empty_sequence_matches_nothing() {
    let rules = main_is(and(MultiExpr::new(vec![])));
    assert_eq!(parse("abc", &rules), Ok(rule("main", vec![])));
}

#[test]
fn choice_takes_the_first_alternative_that_matches() {
    let rules = main_is(or(MultiExpr::new(vec![lit("ab"), lit("a"), lit("abc")])));
    assert_eq!(parse("abc", &rules).unwrap().text(), "ab");
    assert_eq!(parse("ac", &rules).unwrap().text(), "a");
}

#[test]
fn choice_reports_the_deepest_failure() {
    let rules = main_is(or(MultiExpr::new(vec![lit("abcdef"), lit("abcXYZ"), lit("x")])));
    let err = parse("abcDEF", &rules).unwrap_err();
    assert_eq!(err.pos.n, 3);
    assert_eq!(err.pos.col, 3);
    assert_eq!(err.kind, ErrorKind::LiteralMismatch);
    assert_eq!(err.descr, "main > expected literal abcdef / expected literal abcXYZ");
}

#[test]
fn choice_keeps_the_deeper_of_two_failures() {
    let rules = main_is(or(MultiExpr::new(vec![lit("ax"), lit("abcd"), lit("abx")])));
    let err = parse("abc", &rules).unwrap_err();
    assert_eq!(err.pos.n, 3);
    assert_eq!(err.descr, "main > expected literal abcd");
}

#[test]
fn choice_without_alternatives_fails() {
    let rules = main_is(or(MultiExpr::new(vec![])));
    let err = parse("abc", &rules).unwrap_err();
    assert_eq!(err.kind, ErrorKind::NoAlternative);
    assert_eq!(err.pos.n, 0);
}

#[test]
fn negation_consumes_nothing() {
    let rules = main_is(and(MultiExpr::new(vec![not(lit("x")), dot()])));
    assert_eq!(parse("a", &rules), Ok(rule("main", vec![val("a")])));
    let err = parse("x", &rules).unwrap_err();
    assert_eq!(err.kind, ErrorKind::NegationMatched);
    assert_eq!(err.pos.n, 0);
}

#[test]
fn negation_returns_the_status_it_was_given() {
    let rules = SetOfRules::new(vec![]);
    let text = Text2Parse::new("abc");
    let status = Status::init(&text, &rules);
    let (after, nodes) = parse_expr(status, &not(lit("x"))).ok().unwrap();
    assert_eq!(after.pos, status.pos);
    assert_eq!(after.budget, status.budget);
    assert_eq!(after.limit, status.limit);
    assert!(nodes.is_empty());
}

#[test]
fn repetition_is_greedy_and_bounded() {
    let rules = main_is(rep(lit("a"), 2, Some(3)));
    let err = parse("a", &rules).unwrap_err();
    assert_eq!(err.kind, ErrorKind::TooFewRepetitions);
    assert_eq!(err.pos.n, 0);
    assert_eq!(parse("aa", &rules).unwrap().text(), "aa");
    assert_eq!(parse("aaa", &rules).unwrap().text(), "aaa");
    assert_eq!(parse("aaaaa", &rules).unwrap().text(), "aaa");
}

#[test]
fn repetition_error_points_at_its_start() {
    let inner = and(MultiExpr::new(vec![lit("abc"), lit("d")]));
    let rules = main_is(and(MultiExpr::new(vec![lit("__"), rep(inner, 1, None)])));
    let err = parse("__abcx", &rules).unwrap_err();
    assert_eq!(err.kind, ErrorKind::TooFewRepetitions);
    assert_eq!(err.pos.n, 2);
}

#[test]
fn repetition_with_maximum_zero_takes_nothing() {
    let rules = main_is(rep(lit("a"), 0, Some(0)));
    assert_eq!(parse("aaa", &rules), Ok(rule("main", vec![])));
}

#[test]
fn repetition_with_minimum_above_maximum_fails() {
    let rules = main_is(rep(lit("a"), 3, Some(2)));
    assert_eq!(parse("aaaa", &rules).unwrap_err().kind, ErrorKind::TooFewRepetitions);
}

#[test]
fn repetition_stops_when_nothing_is_consumed() {
    let rules = main_is(rep(not(lit("x")), 0, None));
    assert_eq!(parse("abc", &rules), Ok(rule("main", vec![])));
    let at_least_one = main_is(rep(lit(""), 1, None));
    let err = parse("abc", &at_least_one).unwrap_err();
    assert_eq!(err.kind, ErrorKind::TooFewRepetitions);
}

#[test]
fn repeated_reference_builds_rule_nodes() {
    let rules = main_is(rep(ref_rule("a"), 0, None)).add("a", lit("x"));
    let x = || rule("a", vec![val("x")]);
    assert_eq!(parse("xxxx", &rules), Ok(rule("main", vec![x(), x(), x(), x()])));
    assert_eq!(parse("", &rules), Ok(rule("main", vec![])));
}

#[test]
fn missing_rule_is_an_error() {
    let rules = main_is(and(MultiExpr::new(vec![lit("a"), ref_rule("nowhere")])));
    let err = parse("ab", &rules).unwrap_err();
    assert_eq!(err.kind, ErrorKind::MissingRule);
    assert_eq!(err.pos.n, 1);
    assert_eq!(err.descr, "main > missing rule nowhere");
    let none = SetOfRules::new(vec![]);
    let err = parse("ab", &none).unwrap_err();
    assert_eq!(err.kind, ErrorKind::MissingRule);
    assert_eq!(err.descr, "missing rule main");
    assert!(err.cause.is_none());
}

#[test]
fn rule_errors_carry_the_chain_of_rules() {
    let rules = main_is(ref_rule("a")).add("a", lit("x"));
    let err = parse("y", &rules).unwrap_err();
    assert_eq!(err.descr, "main > a > expected literal x");
    let in_a = err.cause.unwrap();
    assert_eq!(in_a.descr, "a > expected literal x");
    let leaf = in_a.cause.unwrap();
    assert_eq!(leaf.descr, "expected literal x");
    assert_eq!(leaf.kind, ErrorKind::LiteralMismatch);
    assert!(leaf.cause.is_none());
}

#[test]
fn later_rule_replaces_earlier_rule() {
    let rules = SetOfRules::new(vec![
        ("main".to_string(), lit("a")),
        ("main".to_string(), lit("b")),
    ]);
    assert!(parse("b", &rules).is_ok());
    assert!(parse("a", &rules).is_err());
    let rules = rules.add("main", lit("c"));
    assert!(parse("c", &rules).is_ok());
    assert!(parse("b", &rules).is_err());
    assert_eq!(rules.get("main"), Some(&lit("c")));
    assert_eq!(rules.get("other"), None);
}

#[test]
fn rules_may_refer_to_rules_added_later() {
    let rules = main_is(and(MultiExpr::new(vec![rep(lit("a"), 1, Some(5)), ref_rule("rule2")])));
    let rules = rules.add("rule2", lit("bcd"));
    assert!(parse("aabcd", &rules).is_ok());
}

#[test]
fn trailing_input_is_ignored_unless_strict() {
    let rules = main_is(lit("ab"));
    assert_eq!(parse("abc", &rules), Ok(rule("main", vec![val("ab")])));
    let err = parse_strict("abc", &rules).unwrap_err();
    assert_eq!(err.kind, ErrorKind::TrailingInput);
    assert_eq!(err.pos.n, 2);
    assert_eq!(parse_strict("ab", &rules), Ok(rule("main", vec![val("ab")])));
    assert_eq!(parse_strict("xb", &rules).unwrap_err().kind, ErrorKind::LiteralMismatch);
}

#[test]
fn positions_count_lines_and_columns() {
    let rules = main_is(and(MultiExpr::new(vec![lit("ab\ncd\ne"), lit("f")])));
    let err = parse("ab\ncd\nex", &rules).unwrap_err();
    assert_eq!(err.pos.n, 7);
    assert_eq!(err.pos.row, 2);
    assert_eq!(err.pos.col, 1);
    let err = parse("ab\ncd\n", &rules).unwrap_err();
    assert_eq!(err.pos.n, 6);
    assert_eq!(err.pos.row, 2);
    assert_eq!(err.pos.col, 0);
    let err = parse("ab\nxd", &rules).unwrap_err();
    assert_eq!((err.pos.n, err.pos.row, err.pos.col), (3, 1, 0));
}

#[test]
fn leaves_of_the_tree_are_a_prefix_of_the_input() {
    let word = rep(ematch("", vec![('a', 'z')]), 1, None);
    let rules = main_is(and(MultiExpr::new(vec![
        ref_rule("word"),
        rep(and(MultiExpr::new(vec![lit(" "), ref_rule("word")])), 0, None),
    ])))
    .add("word", word);
    let input = "one two three 4 five";
    let tree = parse(input, &rules).unwrap();
    assert_eq!(tree.text(), "one two three");
    assert!(input.starts_with(&tree.text()));
}

#[test]
fn parse_is_a_function_of_its_arguments() {
    let rules = main_is(or(MultiExpr::new(vec![lit("ab"), rep(dot(), 2, None)])));
    assert_eq!(parse("abab", &rules), parse("abab", &rules));
    assert_eq!(parse("a", &rules), parse("a", &rules));
}

#[test]
fn parse_starts_at_any_symbol() {
    let rules = main_is(lit("m")).add("other", lit("o"));
    let text = text2parse("o");
    assert_eq!(parse_symbol(&text, &symbol("other"), &rules), Ok(rule("other", vec![val("o")])));
    assert!(parse_symbol(&text, &symbol("main"), &rules).is_err());
    assert_eq!(text.string(), "o");
    assert_eq!(text.len(), 1);
}

#[test]
fn status_starts_with_one_unit_of_budget_for_each_rule() {
    let rules = main_is(lit("m")).add("a", lit("a")).add("b", lit("b"));
    let text = Text2Parse::new("mm");
    let status = Status::init(&text, &rules);
    assert_eq!(rules.len(), 3);
    assert_eq!(status.limit, 3);
    assert_eq!(status.budget, 3);
    assert_eq!(status.pos.n, 0);
}

#[test]
fn budget_is_set_back_when_a_character_is_consumed() {
    let rules = main_is(lit("m")).add("empty", lit("")).add("b", lit("b"));
    let text = Text2Parse::new("mm");
    let status = Status::init(&text, &rules);
    let used = Status { budget: 1, ..status };
    let (after, nodes) = parse_rule_name(used, "main").ok().unwrap();
    assert_eq!(after.budget, 3);
    assert_eq!(after.limit, 3);
    assert_eq!(after.pos.n, 1);
    assert_eq!(nodes, vec![rule("main", vec![val("m")])]);
    let (still, _) = parse_rule_name(used, "empty").ok().unwrap();
    assert_eq!(still.budget, 1);
    assert_eq!(still.pos.n, 0);
    let (last, _) = parse_rule_name(after, "main").ok().unwrap();
    assert_eq!(last.pos.n, 2);
    assert!(parse_rule_name(last, "main").is_err());
}

#[test]
fn reference_without_budget_fails() {
    let rules = main_is(lit("m"));
    let text = Text2Parse::new("m");
    let status = Status::init(&text, &rules);
    let spent = Status { budget: 0, ..status };
    let err = parse_rule_name(spent, "main").err().unwrap();
    assert_eq!(err.kind, ErrorKind::LeftRecursion);
    assert_eq!(err.descr, "left recursion in rule main");
    assert_eq!(err.pos.n, 0);
    let err = parse_rule_name(spent, "nowhere").err().unwrap();
    assert_eq!(err.kind, ErrorKind::MissingRule);
}
