//! The syntax tree that a successful parse produces, and its two passes:
//! compaction of neighbouring values and pruning of named rule nodes.

use vstd::prelude::*;
use vstd::string::StringExecFns;

verus! {

/// A node of the syntax tree.
#[derive(Debug, PartialEq, Eq)]
pub enum Node {
    /// What a named rule matched: the rule's name and the nodes of its body.
    Rule(String, Vec<Node>),
    /// Text captured by a terminal.
    Val(String),
    /// Marks the end of the input.
    EOF,
}

/// The mathematical tree that a `Node` stands for.
pub enum NodeView {
    Rule(Seq<char>, Seq<NodeView>),
    Val(Seq<char>),
    EOF,
}

pub open spec fn node_view(node: Node) -> NodeView
    decreases node,
{
    match node {
        Node::Rule(name, nodes) => NodeView::Rule(name@, nodes_view(nodes@)),
        Node::Val(text) => NodeView::Val(text@),
        Node::EOF => NodeView::EOF,
    }
}

/// The views of a sequence of nodes, one for one.
pub open spec fn nodes_view(nodes: Seq<Node>) -> Seq<NodeView>
    decreases nodes,
{
    Seq::new(
        nodes.len(),
        |i: int|
            if 0 <= i < nodes.len() {
                node_view(nodes[i])
            } else {
                NodeView::EOF
            },
    )
}

impl View for Node {
    type V = NodeView;

    open spec fn view(&self) -> NodeView {
        node_view(*self)
    }
}

pub proof fn lemma_nodes_view_push(nodes: Seq<Node>, node: Node)
    ensures
        nodes_view(nodes.push(node)) == nodes_view(nodes).push(node@),
{
    assert(nodes_view(nodes.push(node)) =~= nodes_view(nodes).push(node@));
}

pub proof fn lemma_nodes_view_add(a: Seq<Node>, b: Seq<Node>)
    ensures
        nodes_view(a + b) == nodes_view(a) + nodes_view(b),
{
    assert(nodes_view(a + b) =~= nodes_view(a) + nodes_view(b));
}

pub proof fn lemma_nodes_view_empty()
    ensures
        nodes_view(Seq::<Node>::empty()) == Seq::<NodeView>::empty(),
{
    assert(nodes_view(Seq::<Node>::empty()) =~= Seq::<NodeView>::empty());
}

// ---------------------------------------------------------------------------
// Text of the leaves

/// The text of the `Val` leaves of a tree, left to right.
pub open spec fn leaves(node: NodeView) -> Seq<char>
    decreases node,
{
    match node {
        NodeView::Rule(_, nodes) => leaves_all(nodes),
        NodeView::Val(text) => text,
        NodeView::EOF => Seq::empty(),
    }
}

/// The text of the `Val` leaves of a sequence of trees, left to right.
pub open spec fn leaves_all(nodes: Seq<NodeView>) -> Seq<char>
    decreases nodes,
{
    if nodes.len() == 0 {
        Seq::empty()
    } else {
        leaves_all(nodes.drop_last()) + leaves(nodes.last())
    }
}

// ---------------------------------------------------------------------------
// Compaction

/// `acc` with `node` added at its end; a `Val` that follows a `Val` is joined to it.
pub open spec fn push_merged(acc: Seq<NodeView>, node: NodeView) -> Seq<NodeView> {
    if acc.len() > 0 && acc.last() is Val && node is Val {
        acc.drop_last().push(NodeView::Val(acc.last()->Val_0 + node->Val_0))
    } else {
        acc.push(node)
    }
}

/// `nodes` with every run of neighbouring `Val`s joined into one `Val`.
pub open spec fn merge_vals(nodes: Seq<NodeView>) -> Seq<NodeView>
    decreases nodes.len(),
{
    if nodes.len() == 0 {
        Seq::empty()
    } else {
        push_merged(merge_vals(nodes.drop_last()), nodes.last())
    }
}

/// The tree with the children of every rule node compacted and then merged.
pub open spec fn compact_spec(node: NodeView) -> NodeView
    decreases node,
{
    match node {
        NodeView::Rule(name, nodes) => NodeView::Rule(name, merge_vals(compact_all(nodes))),
        _ => node,
    }
}

/// Each tree of `nodes` compacted, one for one.
pub open spec fn compact_all(nodes: Seq<NodeView>) -> Seq<NodeView>
    decreases nodes,
{
    Seq::new(
        nodes.len(),
        |i: int|
            if 0 <= i < nodes.len() {
                compact_spec(nodes[i])
            } else {
                NodeView::EOF
            },
    )
}

// ---------------------------------------------------------------------------
// Pruning

/// The names that a list of strings holds.
pub open spec fn names_of(names: Seq<&str>) -> Set<Seq<char>> {
    Set::new(|name: Seq<char>| exists|i: int| 0 <= i < names.len() && (#[trigger] names[i])@ == name)
}

/// The tree without the rule nodes below its root that `names` holds; the
/// children of a removed node take its place.
pub open spec fn prune_spec(node: NodeView, names: Set<Seq<char>>) -> NodeView
    decreases node,
{
    match node {
        NodeView::Rule(name, nodes) => NodeView::Rule(name, prune_all(nodes, names)),
        _ => node,
    }
}

/// The trees of `nodes`, each pruned; one that is itself a rule node named in
/// `names` is replaced by its pruned children.
pub open spec fn prune_all(nodes: Seq<NodeView>, names: Set<Seq<char>>) -> Seq<NodeView>
    decreases nodes,
{
    if nodes.len() == 0 {
        Seq::empty()
    } else {
        let init = prune_all(nodes.drop_last(), names);
        match nodes.last() {
            NodeView::Rule(name, sub) => if names.contains(name) {
                init + prune_all(sub, names)
            } else {
                init.push(NodeView::Rule(name, prune_all(sub, names)))
            },
            other => init.push(other),
        }
    }
}

/// Whether `names` holds `name`.
fn contains_name(names: &[&str], name: &str) -> (found: bool)
    ensures
        found == names_of(names@).contains(name@),
{
    let mut i: usize = 0;
    while i < names.len()
        invariant
            i <= names.len(),
            forall|j: int| 0 <= j < i ==> (#[trigger] names@[j])@ != name@,
        decreases names.len() - i,
    {
        if names[i].eq(name) {
            proof {
                assert(names@[i as int]@ == name@);
            }
            return true;
        }
        i += 1;
    }
    false
}

/// Adds `node` at the end of `out`, joining it to a `Val` at the end if it is a `Val` too.
fn push_node(out: &mut Vec<Node>, node: Node)
    ensures
        nodes_view(final(out)@) == push_merged(nodes_view(old(out)@), node@),
{
    let ghost before = nodes_view(out@);
    match out.pop() {
        Some(Node::Val(text)) => {
            match node {
                Node::Val(more) => {
                    let mut text = text;
                    text.append(more.as_str());
                    out.push(Node::Val(text));
                },
                other => {
                    out.push(Node::Val(text));
                    out.push(other);
                },
            }
        },
        Some(last) => {
            out.push(last);
            out.push(node);
        },
        None => {
            out.push(node);
        },
    }
    proof {
        assert(nodes_view(out@) =~= push_merged(before, node@));
    }
}

/// Adds to `out` the leaves' text of each node of `nodes`.
fn collect_text(out: &mut String, nodes: &Vec<Node>)
    ensures
        final(out)@ == old(out)@ + leaves_all(nodes_view(nodes@)),
    decreases nodes,
{
    let mut i: usize = 0;
    while i < nodes.len()
        invariant
            i <= nodes.len(),
            out@ == old(out)@ + leaves_all(nodes_view(nodes@).take(i as int)),
        decreases nodes.len() - i,
    {
        let ghost before = out@;
        let ghost views = nodes_view(nodes@);
        match &nodes[i] {
            Node::Rule(_, sub) => {
                collect_text(out, sub);
            },
            Node::Val(text) => {
                out.append(text.as_str());
            },
            Node::EOF => {},
        }
        proof {
            assert(views.take(i + 1).drop_last() =~= views.take(i as int));
            assert(views.take(i + 1).last() == views[i as int]);
            assert(leaves_all(views.take(i + 1)) == leaves_all(views.take(i as int)) + leaves(
                views[i as int],
            ));
            assert(out@ =~= old(out)@ + leaves_all(views.take(i + 1)));
        }
        i += 1;
    }
    proof {
        assert(nodes_view(nodes@).take(nodes.len() as int) =~= nodes_view(nodes@));
    }
}

/// Adds to `out` the pruned form of each node of `nodes`.
fn prune_into(out: &mut Vec<Node>, nodes: &Vec<Node>, names: &[&str])
    ensures
        nodes_view(final(out)@) == nodes_view(old(out)@) + prune_all(
            nodes_view(nodes@),
            names_of(names@),
        ),
    decreases nodes,
{
    let mut i: usize = 0;
    proof {
        assert(nodes_view(out@) =~= nodes_view(old(out)@) + prune_all(
            nodes_view(nodes@).take(0),
            names_of(names@),
        ));
    }
    while i < nodes.len()
        invariant
            i <= nodes.len(),
            nodes_view(out@) == nodes_view(old(out)@) + prune_all(
                nodes_view(nodes@).take(i as int),
                names_of(names@),
            ),
        decreases nodes.len() - i,
    {
        let ghost before = out@;
        let ghost views = nodes_view(nodes@);
        match &nodes[i] {
            Node::Rule(name, sub) => {
                if contains_name(names, name.as_str()) {
                    prune_into(out, sub, names);
                } else {
                    let mut kept: Vec<Node> = Vec::new();
                    prune_into(&mut kept, sub, names);
                    let node = Node::Rule(name.clone(), kept);
                    out.push(node);
                    proof {
                        lemma_nodes_view_empty();
                        lemma_nodes_view_push(before, node);
                    }
                }
            },
            Node::Val(text) => {
                let node = Node::Val(text.clone());
                out.push(node);
                proof {
                    lemma_nodes_view_push(before, node);
                }
            },
            Node::EOF => {
                out.push(Node::EOF);
                proof {
                    lemma_nodes_view_push(before, Node::EOF);
                }
            },
        }
        proof {
            assert(views.take(i + 1).drop_last() =~= views.take(i as int));
            assert(views.take(i + 1).last() == views[i as int]);
            assert(nodes_view(out@) =~= nodes_view(old(out)@) + prune_all(
                views.take(i + 1),
                names_of(names@),
            ));
        }
        i += 1;
    }
    proof {
        assert(nodes_view(nodes@).take(nodes.len() as int) =~= nodes_view(nodes@));
    }
}

impl Node {
    /// A copy of the tree in which neighbouring `Val` children of one node are
    /// joined into a single `Val`, at every level.
    pub fn compact(&self) -> (tree: Node)
        ensures
            tree@ == compact_spec(self@),
        decreases self,
    {
        match self {
            Node::Rule(name, nodes) => {
                let mut out: Vec<Node> = Vec::new();
                let mut i: usize = 0;
                proof {
                    lemma_nodes_view_empty();
                    assert(compact_all(nodes_view(nodes@)).take(0) =~= Seq::empty());
                }
                while i < nodes.len()
                    invariant
                        i <= nodes.len(),
                        *self == Node::Rule(*name, *nodes),
                        nodes_view(out@) == merge_vals(
                            compact_all(nodes_view(nodes@)).take(i as int),
                        ),
                    decreases nodes.len() - i,
                {
                    proof {
                        assert(decreases_to!(*self => self->Rule_1));
                        assert(decreases_to!(*nodes => nodes[i as int]));
                    }
                    let child = nodes[i].compact();
                    push_node(&mut out, child);
                    proof {
                        let all = compact_all(nodes_view(nodes@));
                        assert(all.take(i + 1).drop_last() =~= all.take(i as int));
                    }
                    i += 1;
                }
                proof {
                    let all = compact_all(nodes_view(nodes@));
                    assert(all.take(nodes.len() as int) =~= all);
                }
                Node::Rule(name.clone(), out)
            },
            Node::Val(text) => Node::Val(text.clone()),
            Node::EOF => Node::EOF,
        }
    }

    /// A copy of the tree without the rule nodes below the root whose name is
    /// in `nodes2prune`; the children of a removed node take its place.
    pub fn prune(&self, nodes2prune: &[&str]) -> (tree: Node)
        ensures
            tree@ == prune_spec(self@, names_of(nodes2prune@)),
    {
        match self {
            Node::Rule(name, nodes) => {
                let mut out: Vec<Node> = Vec::new();
                proof {
                    lemma_nodes_view_empty();
                }
                prune_into(&mut out, nodes, nodes2prune);
                Node::Rule(name.clone(), out)
            },
            Node::Val(text) => Node::Val(text.clone()),
            Node::EOF => Node::EOF,
        }
    }

    /// The text of the tree's `Val` leaves, left to right.
    pub fn text(&self) -> (text: String)
        ensures
            text@ == leaves(self@),
    {
        match self {
            Node::Rule(_, nodes) => {
                let mut out = String::new();
                collect_text(&mut out, nodes);
                out
            },
            Node::Val(text) => text.clone(),
            Node::EOF => String::new(),
        }
    }
}

} // verus!
