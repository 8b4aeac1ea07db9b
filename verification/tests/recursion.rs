use dynparser::expression::{and, lit, or, ref_rule};
use dynparser::peg::rules_from_peg;
use dynparser::{parse, ErrorKind, MultiExpr, SetOfRules};

#[test]
fn left_recursion_ends_in_an_error() {
    let rules = SetOfRules::new(vec![]).add(
        "main",
        and(MultiExpr::new(vec![ref_rule("main"), lit("x")])),
    );
    let err = parse("xxx", &rules).unwrap_err();
    assert_eq!(err.kind, ErrorKind::LeftRecursion);
    assert_eq!(err.pos.n, 0);
    assert_eq!(err.descr, "main > left recursion in rule main");
}

#[test]
fn mutual_left_recursion_ends_in_an_error() {
    let rules = rules_from_peg("main = a \"x\"\na = b / \"y\" b\nb = main\n").unwrap();
    let err = parse("yx", &rules).unwrap_err();
    assert_eq!(err.kind, ErrorKind::LeftRecursion);
    assert_eq!(err.pos.n, 1);
}

#[test]
fn left_recursion_in_every_alternative_ends_at_once() {
    let rules = SetOfRules::new(vec![]).add(
        "main",
        or(MultiExpr::new(vec![ref_rule("main"), ref_rule("main"), ref_rule("main")])),
    );
    assert_eq!(parse("x", &rules).unwrap_err().kind, ErrorKind::LeftRecursion);
}

#[test]
fn recursion_that_consumes_may_go_deep() {
    let rules = rules_from_peg("main = \"a\" main / \"b\"\n").unwrap();
    let input = format!("{}b", "a".repeat(300));
    assert_eq!(parse(&input, &rules).unwrap().text(), input);
    let nested = rules_from_peg("main = \"(\" main \")\" / \"x\"\n").unwrap();
    let input = format!("{}x{}", "(".repeat(200), ")".repeat(200));
    assert_eq!(parse(&input, &nested).unwrap().text(), input);
}

#[test]
fn chains_of_rules_as_long_as_the_rule_set_are_followed() {
    let mut peg = String::from("main = r0\n");
    for i in 0..60 {
        peg.push_str(&format!("r{} = r{}\n", i, i + 1));
    }
    peg.push_str("r60 = \"x\"\n");
    let rules = rules_from_peg(&peg).unwrap();
    assert_eq!(rules.len(), 62);
    assert_eq!(parse("x", &rules).unwrap().text(), "x");
}

#[test]
fn long_sequences_compile() {
    let mut peg = String::from("main = \"a\"");
    for _ in 0..400 {
        peg.push_str(" \"a\"");
    }
    peg.push('\n');
    let rules = rules_from_peg(&peg).unwrap();
    let input = "a".repeat(401);
    assert!(parse(&input, &rules).is_ok());
}

#[test]
fn large_grammars_compile() {
    let mut peg = String::from("main = r0+\n");
    for i in 0..1500 {
        peg.push_str(&format!(
            "r{}   =  \"a{}\" [_a-z0-9]* !\"x\" ( r{} / \"end\" )?   /   \"b\" .\n",
            i,
            i,
            i + 1
        ));
    }
    peg.push_str("r1500 = \"z\"\n");
    let rules = rules_from_peg(&peg).unwrap();
    assert!(rules.get("r1500").is_some());
    assert!(rules.get("r1501").is_none());
    let tree = parse("a0qa1_z", &rules).unwrap();
    assert_eq!(tree.text(), "a0qa1_z");
}
