use dynparser::atom::{parse_dot, parse_literal, parse_match, Atom, CharClass};
use dynparser::expression::{lit, rep};
use dynparser::parser::Status;
use dynparser::peg::rules_from_peg;
use dynparser::{parse, symbol, text2parse, ErrorKind, Position, SetOfRules, Symbol, Text2Parse};

#[test]
fn positions_advance_by_characters() {
    let start = Position::start();
    assert_eq!(start, Position { n: 0, row: 0, col: 0 });
    let a = start.advance('a');
    assert_eq!(a, Position { n: 1, row: 0, col: 1 });
    let line = a.advance('\n');
    assert_eq!(line, Position { n: 2, row: 1, col: 0 });
    let wide = line.advance('\u{4e16}');
    assert_eq!(wide, Position { n: 3, row: 1, col: 1 });
    let cr = wide.advance('\r');
    assert_eq!(cr, Position { n: 4, row: 1, col: 2 });
}

#[test]
fn positions_are_ordered_by_offset() {
    let early = Position { n: 3, row: 2, col: 0 };
    let late = Position { n: 4, row: 0, col: 4 };
    assert!(early.is_before(&late));
    assert!(!late.is_before(&early));
    assert!(!early.is_before(&early));
}

#[test]
fn text_counts_characters_not_bytes() {
    let text = Text2Parse::new("h\u{e9}llo");
    assert_eq!(text.len(), 5);
    assert_eq!(text.char_at(1), '\u{e9}');
    assert_eq!(text.char_at(4), 'o');
    assert_eq!(text.string(), "h\u{e9}llo");
    assert_eq!(text2parse("").len(), 0);
}

#[test]
fn symbols_hold_their_name() {
    assert_eq!(symbol("main"), Symbol("main".to_string()));
    assert_ne!(symbol("main"), symbol("other"));
}

#[test]
fn literal_advances_over_what_it_matched() {
    let text = Text2Parse::new("a\nbc");
    let (pos, captured) = parse_literal(&text, "a\nb", Position::start()).unwrap();
    assert_eq!(pos, Position { n: 3, row: 1, col: 1 });
    assert_eq!(captured, "a\nb");
    let (end, captured) = parse_literal(&text, "c", pos).unwrap();
    assert_eq!(end, Position { n: 4, row: 1, col: 2 });
    assert_eq!(captured, "c");
    let err = parse_literal(&text, "c", end).unwrap_err();
    assert_eq!(err.pos, end);
    assert_eq!(err.kind, ErrorKind::LiteralMismatch);
    assert_eq!(err.descr, "expected literal c");
    assert!(err.cause.is_none());
}

#[test]
fn literal_fails_at_the_first_difference() {
    let text = Text2Parse::new("ab\ncd");
    let err = parse_literal(&text, "ab\ncx", Position::start()).unwrap_err();
    assert_eq!(err.pos, Position { n: 4, row: 1, col: 1 });
    let err = parse_literal(&text, "xb", Position::start()).unwrap_err();
    assert_eq!(err.pos, Position::start());
}

#[test]
fn dot_captures_the_character_it_read() {
    let text = Text2Parse::new("\n\u{e9}");
    let (pos, captured) = parse_dot(&text, Position::start()).unwrap();
    assert_eq!(pos, Position { n: 1, row: 1, col: 0 });
    assert_eq!(captured, "\n");
    let (end, captured) = parse_dot(&text, pos).unwrap();
    assert_eq!(end, Position { n: 2, row: 1, col: 1 });
    assert_eq!(captured, "\u{e9}");
    let err = parse_dot(&text, end).unwrap_err();
    assert_eq!(err.kind, ErrorKind::UnexpectedEof);
    assert_eq!(err.descr, "expected any character");
    assert_eq!(err.pos, end);
}

#[test]
fn class_holds_listed_characters_and_ranges() {
    let class = CharClass { chars: vec!['_', '-'], ranges: vec![('a', 'c'), ('x', 'x'), ('9', '0')] };
    for c in ['_', '-', 'a', 'b', 'c', 'x'] {
        assert!(class.contains(c), "{}", c);
    }
    for c in ['d', 'w', 'y', '0', '5', '9', ' ', 'A'] {
        assert!(!class.contains(c), "{}", c);
    }
    let text = Text2Parse::new("bd");
    let (pos, captured) = parse_match(&text, &class, Position::start()).unwrap();
    assert_eq!(pos.n, 1);
    assert_eq!(captured, "b");
    let err = parse_match(&text, &class, pos).unwrap_err();
    assert_eq!(err.kind, ErrorKind::ClassMismatch);
    assert_eq!(err.descr, "expected a character of the class");
    assert_eq!(err.pos, pos);
}

#[test]
fn atoms_parse_by_their_kind() {
    let text = Text2Parse::new("ab");
    let start = Position::start();
    assert_eq!(Atom::Literal("ab".to_string()).parse(&text, start).unwrap().0.n, 2);
    assert_eq!(Atom::Dot.parse(&text, start).unwrap().1, "a");
    let class = CharClass { chars: vec!['b'], ranges: vec![] };
    assert!(Atom::Match(class).parse(&text, start).is_err());
}

#[test]
fn expressions_parse_from_a_status() {
    let rules = SetOfRules::new(vec![]);
    let text = Text2Parse::new("aaab");
    let status = Status::init(&text, &rules);
    let (after, nodes) = rep(lit("a"), 0, None).parse(status).ok().unwrap();
    assert_eq!(after.pos, Position { n: 3, row: 0, col: 3 });
    assert_eq!(nodes.len(), 3);
    assert!(lit("b").parse(status).is_err());
    assert!(lit("b").parse(after).is_ok());
}

#[test]
fn error_messages_start_with_line_and_column() {
    let rules = SetOfRules::new(vec![]).add("main", lit("hello"));
    let err = parse("help", &rules).unwrap_err();
    assert_eq!(err.message(), "0:3: main > expected literal hello");
    let lines = "x\n".repeat(12);
    let rules = SetOfRules::new(vec![]).add("main", rep(lit("x\n"), 20, None));
    let err = parse(&lines, &rules).unwrap_err();
    assert_eq!(err.message(), "0:0: main > too few repetitions");
    let long = format!("{}{}", lines, "y".repeat(104));
    let rules = SetOfRules::new(vec![]).add("main", lit(&format!("{}z", long)));
    let err = parse(&long, &rules).unwrap_err();
    assert_eq!(err.pos, Position { n: 128, row: 12, col: 104 });
    assert_eq!(err.message(), format!("12:104: main > expected literal {}z", long));
}

#[test]
fn grammar_errors_tell_where_the_text_stops_parsing() {
    let err = rules_from_peg("main = \"a\"\n)").err().unwrap();
    assert_eq!(err.message(), "Parser(1:0: input left over)");
    let err = rules_from_peg("main = \n").err().unwrap();
    assert_eq!(err.message(), "Parser(0:0: main > grammar > too few repetitions)");
}
