use dynparser::ast::Node;
use dynparser::parse;
use dynparser::peg::rules_from_peg;

fn val(text: &str) -> Node {
    Node::Val(text.to_string())
}

fn rule(name: &str, nodes: Vec<Node>) -> Node {
    Node::Rule(name.to_string(), nodes)
}

#[test]
fn literal_grammar() {
    let rules = rules_from_peg("main = \"hello\"\n").unwrap();
    assert!(parse("hello", &rules).is_ok());
    assert_eq!(parse("help", &rules).unwrap_err().pos.n, 3);
}

#[test]
fn sequence_grammar() {
    let rules = rules_from_peg("main = \"hello\" \" \" \"world\"\n").unwrap();
    assert_eq!(parse("hello world", &rules), Ok(rule("main", vec![val("hello world")])));
}

#[test]
fn choice_grammar() {
    let rules = rules_from_peg("main = \"hello\" / \"hola\"\n").unwrap();
    assert!(parse("hello", &rules).is_ok());
    assert!(parse("hola", &rules).is_ok());
    assert!(parse("bye", &rules).is_err());
}

#[test]
fn star_and_reference_grammar() {
    let rules = rules_from_peg("main = a*\na = \"x\"\n").unwrap();
    let x = || rule("a", vec![val("x")]);
    assert_eq!(parse("xxxx", &rules), Ok(rule("main", vec![x(), x(), x(), x()])));
    assert_eq!(parse("", &rules), Ok(rule("main", vec![])));
}

#[test]
fn negation_grammar() {
    let rules = rules_from_peg("main = !\"x\" .\n").unwrap();
    assert!(parse("a", &rules).is_ok());
    assert!(parse("x", &rules).is_err());
}

const NESTED: &str = r#"
    main    = "aaa" "bb" c*  / ((d f)+ / es)
    c       = c'
    c'      = c''
    c''     = "c"
    d       = "d"
    f       = "f"
    es       = "e"+
"#;

#[test]
fn nested_grammar() {
    let rules = rules_from_peg(NESTED).unwrap();
    assert_eq!(parse("aaabbccc", &rules).unwrap().text(), "aaabbccc");
    assert_eq!(parse("dfdf", &rules).unwrap().text(), "dfdf");
    assert_eq!(parse("eee", &rules).unwrap().text(), "eee");
    assert!(parse("aaab", &rules).is_err());
}

#[test]
fn unterminated_literal_does_not_compile() {
    let peg = NESTED.replace("\"aaa\"", "\"aaa");
    assert!(rules_from_peg(&peg).is_err());
}

#[test]
fn missing_parenthesis_does_not_compile() {
    let peg = NESTED.replace("es)", "es");
    assert!(rules_from_peg(&peg).is_err());
    let spread = r#"
    main    =   "aaa"
            /   "bb" c*
            / ((d f)+ / es

    c       = "c"
    d       = "d"
    f       = "f"
    es       = "e"+
"#;
    assert!(rules_from_peg(spread).is_err());
}

#[test]
fn stray_space_before_repetition_does_not_compile() {
    let peg = NESTED.replace("c*", "c *");
    assert!(rules_from_peg(&peg).is_err());
}

#[test]
fn deep_or_errchoice_grammar() {
    let rules = rules_from_peg("main = \"abcdef\" / \"abcXYZ\"\n").unwrap();
    let err = parse("abcDEF", &rules).unwrap_err();
    assert_eq!(err.pos.col, 3);
    assert_eq!(err.pos.n, 3);
    assert_eq!(err.pos.row, 0);
}
