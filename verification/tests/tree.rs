use dynparser::ast::Node;

fn val(text: &str) -> Node {
    Node::Val(text.to_string())
}

fn rule(name: &str, nodes: Vec<Node>) -> Node {
    Node::Rule(name.to_string(), nodes)
}

fn sample() -> Node {
    rule(
        "main",
        vec![
            val("a"),
            val("b"),
            rule("_", vec![val(" "), val(" ")]),
            val("c"),
            rule("x", vec![val("d"), rule("_", vec![]), val("e"), val("f"), Node::EOF, val("g")]),
            val("h"),
            val("i"),
        ],
    )
}

#[test]
fn compact_joins_neighbouring_values() {
    let expected = rule(
        "main",
        vec![
            val("ab"),
            rule("_", vec![val("  ")]),
            val("c"),
            rule("x", vec![val("d"), rule("_", vec![]), val("ef"), Node::EOF, val("g")]),
            val("hi"),
        ],
    );
    assert_eq!(sample().compact(), expected);
}

#[test]
fn compact_leaves_values_and_markers_alone() {
    assert_eq!(val("a").compact(), val("a"));
    assert_eq!(Node::EOF.compact(), Node::EOF);
    assert_eq!(rule("r", vec![]).compact(), rule("r", vec![]));
}

#[test]
fn compact_is_idempotent() {
    let once = sample().compact();
    assert_eq!(once.compact(), once);
}

#[test]
fn compact_keeps_the_text() {
    assert_eq!(sample().text(), "ab  cdefghi");
    assert_eq!(sample().compact().text(), "ab  cdefghi");
}

#[test]
fn prune_hoists_the_children_of_removed_nodes() {
    let expected = rule(
        "main",
        vec![
            val("a"),
            val("b"),
            val(" "),
            val(" "),
            val("c"),
            rule("x", vec![val("d"), val("e"), val("f"), Node::EOF, val("g")]),
            val("h"),
            val("i"),
        ],
    );
    assert_eq!(sample().prune(&["_"]), expected);
}

#[test]
fn prune_removes_every_listed_name_at_every_depth() {
    let tree = rule(
        "main",
        vec![rule("a", vec![rule("b", vec![val("1"), rule("a", vec![val("2")])])]), val("3")],
    );
    assert_eq!(tree.prune(&["a", "b"]), rule("main", vec![val("1"), val("2"), val("3")]));
    assert_eq!(
        tree.prune(&["b"]),
        rule("main", vec![rule("a", vec![val("1"), rule("a", vec![val("2")])]), val("3")])
    );
}

#[test]
fn prune_keeps_the_root() {
    let tree = rule("_", vec![rule("_", vec![val("x")])]);
    assert_eq!(tree.prune(&["_"]), rule("_", vec![val("x")]));
    assert_eq!(val("_").prune(&["_"]), val("_"));
}

#[test]
fn prune_without_names_changes_nothing() {
    assert_eq!(sample().prune(&[]), sample());
    assert_eq!(sample().prune(&["nowhere"]), sample());
}

#[test]
fn prune_and_compact_commute_where_no_value_meets_a_value() {
    let tree = rule(
        "main",
        vec![val("a"), val("b"), rule("x", vec![rule("_", vec![val(" ")]), rule("y", vec![])])],
    );
    assert_eq!(tree.compact().prune(&["_"]), tree.prune(&["_"]).compact());
    let free = rule("main", vec![val("a"), val("b"), rule("x", vec![val("c"), val("d")])]);
    assert_eq!(free.compact().prune(&["_"]), free.prune(&["_"]).compact());
}

#[test]
fn prune_after_compact_may_leave_values_side_by_side() {
    let tree = rule("a", vec![val("x"), rule("_", vec![val(" ")]), val("y")]);
    assert_eq!(tree.compact().prune(&["_"]), rule("a", vec![val("x"), val(" "), val("y")]));
    assert_eq!(tree.prune(&["_"]).compact(), rule("a", vec![val("x y")]));
}

#[test]
fn compacting_last_gives_one_tree_either_way() {
    let tree = sample();
    assert_eq!(tree.compact().prune(&["_"]).compact(), tree.prune(&["_"]).compact());
    assert_eq!(tree.compact().prune(&["x", "_"]).compact(), tree.prune(&["x", "_"]).compact());
}
