//! Laws of the two passes over syntax trees.

use vstd::prelude::*;
use crate::ast::compact_all;
use crate::ast::compact_spec;
use crate::ast::leaves;
use crate::ast::leaves_all;
use crate::ast::merge_vals;
use crate::ast::prune_all;
use crate::ast::prune_spec;
use crate::ast::push_merged;
use crate::ast::NodeView;

verus! {

// ---------------------------------------------------------------------------
// Leaves

/// The leaves of two sequences of trees, one after the other, are the leaves of
/// their concatenation.
pub proof fn lemma_leaves_add(a: Seq<NodeView>, b: Seq<NodeView>)
    ensures
        leaves_all(a + b) == leaves_all(a) + leaves_all(b),
    decreases b.len(),
{
    if b.len() == 0 {
        assert(a + b =~= a);
        assert(leaves_all(a) + leaves_all(b) =~= leaves_all(a));
    } else {
        lemma_leaves_add(a, b.drop_last());
        assert((a + b).drop_last() =~= a + b.drop_last());
        assert((a + b).last() == b.last());
        assert(leaves_all(a + b) =~= leaves_all(a) + leaves_all(b));
    }
}

/// The leaves of a sequence of one tree are the leaves of that tree.
pub proof fn lemma_leaves_one(node: NodeView)
    ensures
        leaves_all(seq![node]) == leaves(node),
{
    let one = seq![node];
    assert(one.drop_last() =~= Seq::<NodeView>::empty());
    assert(leaves_all(one.drop_last()) =~= Seq::<char>::empty());
    assert(one.last() == node);
    assert(leaves_all(one) =~= leaves(node));
}

/// Adding a tree to a sequence adds its leaves.
pub proof fn lemma_leaves_push(nodes: Seq<NodeView>, node: NodeView)
    ensures
        leaves_all(nodes.push(node)) == leaves_all(nodes) + leaves(node),
{
    assert(nodes.push(node).drop_last() =~= nodes);
    assert(nodes.push(node).last() == node);
}

proof fn lemma_push_merged_leaves(acc: Seq<NodeView>, node: NodeView)
    ensures
        leaves_all(push_merged(acc, node)) == leaves_all(acc) + leaves(node),
{
    if acc.len() > 0 && acc.last() is Val && node is Val {
        let joined = NodeView::Val(acc.last()->Val_0 + node->Val_0);
        lemma_leaves_push(acc.drop_last(), joined);
        lemma_leaves_push(acc.drop_last(), acc.last());
        assert(acc.drop_last().push(acc.last()) =~= acc);
        assert(leaves_all(push_merged(acc, node)) =~= leaves_all(acc) + leaves(node));
    } else {
        lemma_leaves_push(acc, node);
    }
}

proof fn lemma_merge_vals_leaves(nodes: Seq<NodeView>)
    ensures
        leaves_all(merge_vals(nodes)) == leaves_all(nodes),
    decreases nodes.len(),
{
    if nodes.len() > 0 {
        lemma_merge_vals_leaves(nodes.drop_last());
        lemma_push_merged_leaves(merge_vals(nodes.drop_last()), nodes.last());
    }
}

/// Compaction keeps the text of the leaves.
pub proof fn lemma_compact_leaves(node: NodeView)
    ensures
        leaves(compact_spec(node)) == leaves(node),
    decreases node,
{
    match node {
        NodeView::Rule(_, nodes) => {
            lemma_compact_all_leaves(nodes, nodes.len() as int);
            assert(compact_all(nodes).take(nodes.len() as int) =~= compact_all(nodes));
            assert(nodes.take(nodes.len() as int) =~= nodes);
            lemma_merge_vals_leaves(compact_all(nodes));
        },
        _ => {},
    }
}

proof fn lemma_compact_all_leaves(nodes: Seq<NodeView>, k: int)
    requires
        0 <= k <= nodes.len(),
    ensures
        leaves_all(compact_all(nodes).take(k)) == leaves_all(nodes.take(k)),
    decreases nodes, k,
{
    if k > 0 {
        lemma_compact_all_leaves(nodes, k - 1);
        lemma_compact_leaves(nodes[k - 1]);
        assert(compact_all(nodes).take(k).drop_last() =~= compact_all(nodes).take(k - 1));
        assert(nodes.take(k).drop_last() =~= nodes.take(k - 1));
        assert(compact_all(nodes).take(k).last() == compact_spec(nodes[k - 1]));
        assert(nodes.take(k).last() == nodes[k - 1]);
    }
}

// ---------------------------------------------------------------------------
// Compacted trees

/// No two neighbours in `nodes` are both `Val`s.
pub open spec fn merged(nodes: Seq<NodeView>) -> bool {
    forall|i: int|
        0 <= i && i + 1 < nodes.len() ==> !((#[trigger] nodes[i]) is Val && nodes[i + 1] is Val)
}

/// At no level of the tree are two neighbouring children both `Val`s.
pub open spec fn compacted(node: NodeView) -> bool
    decreases node,
{
    match node {
        NodeView::Rule(_, nodes) => merged(nodes) && forall|i: int|
            0 <= i < nodes.len() ==> compacted(#[trigger] nodes[i]),
        _ => true,
    }
}

proof fn lemma_merge_vals_merged(nodes: Seq<NodeView>)
    ensures
        merged(merge_vals(nodes)),
        merge_vals(nodes).len() <= nodes.len(),
        nodes.len() > 0 ==> merge_vals(nodes).len() > 0,
        nodes.len() > 0 ==> (merge_vals(nodes).last() is Val <==> nodes.last() is Val),
    decreases nodes.len(),
{
    if nodes.len() > 0 {
        let init = merge_vals(nodes.drop_last());
        lemma_merge_vals_merged(nodes.drop_last());
        let out = push_merged(init, nodes.last());
        assert(out == merge_vals(nodes));
        assert forall|i: int| 0 <= i && i + 1 < out.len() implies !((#[trigger] out[i]) is Val
            && out[i + 1] is Val) by {
            if init.len() > 0 && init.last() is Val && nodes.last() is Val {
                if i + 1 < out.len() - 1 {
                    assert(out[i] == init[i]);
                    assert(out[i + 1] == init[i + 1]);
                } else {
                    assert(out[i] == init[i]);
                    assert(init[i + 1] == init.last());
                }
            } else {
                if i + 1 < init.len() {
                    assert(out[i] == init[i]);
                    assert(out[i + 1] == init[i + 1]);
                } else {
                    assert(out[i] == init.last());
                }
            }
        }
    }
}

proof fn lemma_merge_vals_compacted(nodes: Seq<NodeView>)
    requires
        forall|i: int| 0 <= i < nodes.len() ==> compacted(#[trigger] nodes[i]),
    ensures
        forall|i: int| 0 <= i < merge_vals(nodes).len() ==> compacted(#[trigger] merge_vals(nodes)[i]),
    decreases nodes.len(),
{
    if nodes.len() > 0 {
        let init = merge_vals(nodes.drop_last());
        lemma_merge_vals_compacted(nodes.drop_last());
        let out = push_merged(init, nodes.last());
        assert(out == merge_vals(nodes));
        assert(compacted(nodes[nodes.len() - 1]));
        assert forall|i: int| 0 <= i < out.len() implies compacted(#[trigger] out[i]) by {
            if init.len() > 0 && init.last() is Val && nodes.last() is Val {
                if i < out.len() - 1 {
                    assert(out[i] == init[i]);
                }
            } else {
                if i < init.len() {
                    assert(out[i] == init[i]);
                }
            }
        }
    }
}

proof fn lemma_merge_vals_fixed(nodes: Seq<NodeView>)
    requires
        merged(nodes),
    ensures
        merge_vals(nodes) == nodes,
    decreases nodes.len(),
{
    if nodes.len() > 0 {
        let init = nodes.drop_last();
        assert forall|i: int| 0 <= i && i + 1 < init.len() implies !((#[trigger] init[i]) is Val
            && init[i + 1] is Val) by {
            assert(init[i] == nodes[i]);
            assert(init[i + 1] == nodes[i + 1]);
        }
        lemma_merge_vals_fixed(init);
        if init.len() > 0 {
            assert(init.last() == nodes[nodes.len() - 2]);
            assert(nodes.last() == nodes[nodes.len() - 2 + 1]);
        }
        assert(push_merged(init, nodes.last()) =~= nodes);
    } else {
        assert(merge_vals(nodes) =~= nodes);
    }
}

/// What compaction returns is compacted.
pub proof fn lemma_compact_is_compacted(node: NodeView)
    ensures
        compacted(compact_spec(node)),
    decreases node,
{
    match node {
        NodeView::Rule(_, nodes) => {
            let all = compact_all(nodes);
            assert forall|i: int| 0 <= i < all.len() implies compacted(#[trigger] all[i]) by {
                lemma_compact_is_compacted(nodes[i]);
            }
            lemma_merge_vals_merged(all);
            lemma_merge_vals_compacted(all);
        },
        _ => {},
    }
}

/// Compaction leaves a compacted tree as it is.
pub proof fn lemma_compacted_is_fixed(node: NodeView)
    requires
        compacted(node),
    ensures
        compact_spec(node) == node,
    decreases node,
{
    match node {
        NodeView::Rule(_, nodes) => {
            assert forall|i: int| 0 <= i < nodes.len() implies compact_all(nodes)[i] == nodes[i] by {
                lemma_compacted_is_fixed(nodes[i]);
            }
            assert(compact_all(nodes) =~= nodes);
            lemma_merge_vals_fixed(nodes);
        },
        _ => {},
    }
}

/// Compaction is idempotent: compacting a compacted tree changes nothing.
pub proof fn lemma_compact_idempotent(node: NodeView)
    ensures
        compact_spec(compact_spec(node)) == compact_spec(node),
{
    lemma_compact_is_compacted(node);
    lemma_compacted_is_fixed(compact_spec(node));
}

// ---------------------------------------------------------------------------
// Pruning

/// No rule node among `nodes`, at any level, has a name that `names` holds.
pub open spec fn free_of(nodes: Seq<NodeView>, names: Set<Seq<char>>) -> bool
    decreases nodes,
{
    forall|i: int|
        0 <= i < nodes.len() ==> match #[trigger] nodes[i] {
            NodeView::Rule(name, sub) => !names.contains(name) && free_of(sub, names),
            _ => true,
        }
}

/// No rule node below the root of the tree has a name that `names` holds.
pub open spec fn untouched_by(node: NodeView, names: Set<Seq<char>>) -> bool {
    match node {
        NodeView::Rule(_, nodes) => free_of(nodes, names),
        _ => true,
    }
}

proof fn lemma_prune_all_fixed(nodes: Seq<NodeView>, names: Set<Seq<char>>)
    requires
        free_of(nodes, names),
    ensures
        prune_all(nodes, names) == nodes,
    decreases nodes,
{
    if nodes.len() > 0 {
        let init = nodes.drop_last();
        assert forall|i: int| 0 <= i < init.len() implies match #[trigger] init[i] {
            NodeView::Rule(name, sub) => !names.contains(name) && free_of(sub, names),
            _ => true,
        } by {
            assert(init[i] == nodes[i]);
        }
        lemma_prune_all_fixed(init, names);
        assert(nodes.last() == nodes[nodes.len() - 1]);
        match nodes.last() {
            NodeView::Rule(name, sub) => {
                lemma_prune_all_fixed(sub, names);
            },
            _ => {},
        }
        assert(prune_all(nodes, names) =~= nodes);
    } else {
        assert(prune_all(nodes, names) =~= nodes);
    }
}

/// Pruning changes nothing in a tree that holds none of the names.
pub proof fn lemma_prune_untouched(node: NodeView, names: Set<Seq<char>>)
    requires
        untouched_by(node, names),
    ensures
        prune_spec(node, names) == node,
{
    match node {
        NodeView::Rule(_, nodes) => {
            lemma_prune_all_fixed(nodes, names);
        },
        _ => {},
    }
}

proof fn lemma_merge_vals_free(nodes: Seq<NodeView>, names: Set<Seq<char>>)
    requires
        free_of(nodes, names),
    ensures
        free_of(merge_vals(nodes), names),
    decreases nodes.len(),
{
    if nodes.len() > 0 {
        let init = nodes.drop_last();
        assert forall|i: int| 0 <= i < init.len() implies match #[trigger] init[i] {
            NodeView::Rule(name, sub) => !names.contains(name) && free_of(sub, names),
            _ => true,
        } by {
            assert(init[i] == nodes[i]);
        }
        lemma_merge_vals_free(init, names);
        let merged_init = merge_vals(init);
        let out = push_merged(merged_init, nodes.last());
        assert(nodes.last() == nodes[nodes.len() - 1]);
        assert forall|i: int| 0 <= i < out.len() implies match #[trigger] out[i] {
            NodeView::Rule(name, sub) => !names.contains(name) && free_of(sub, names),
            _ => true,
        } by {
            if merged_init.len() > 0 && merged_init.last() is Val && nodes.last() is Val {
                if i < out.len() - 1 {
                    assert(out[i] == merged_init[i]);
                }
            } else {
                if i < merged_init.len() {
                    assert(out[i] == merged_init[i]);
                }
            }
        }
    }
}

proof fn lemma_compact_all_free(nodes: Seq<NodeView>, names: Set<Seq<char>>)
    requires
        free_of(nodes, names),
    ensures
        free_of(compact_all(nodes), names),
    decreases nodes,
{
    let all = compact_all(nodes);
    assert forall|i: int| 0 <= i < all.len() implies match #[trigger] all[i] {
        NodeView::Rule(name, sub) => !names.contains(name) && free_of(sub, names),
        _ => true,
    } by {
        assert(all[i] == compact_spec(nodes[i]));
        match nodes[i] {
            NodeView::Rule(name, sub) => {
                lemma_compact_all_free(sub, names);
                lemma_merge_vals_free(compact_all(sub), names);
            },
            _ => {},
        }
    }
}

/// Compaction brings no name of `names` into a tree that holds none.
pub proof fn lemma_compact_untouched(node: NodeView, names: Set<Seq<char>>)
    requires
        untouched_by(node, names),
    ensures
        untouched_by(compact_spec(node), names),
{
    match node {
        NodeView::Rule(_, nodes) => {
            lemma_compact_all_free(nodes, names);
            lemma_merge_vals_free(compact_all(nodes), names);
        },
        _ => {},
    }
}

/// On a tree in which no rule node below the root is named in `names`,
/// pruning and compaction commute.
pub proof fn lemma_prune_compact_commute_untouched(node: NodeView, names: Set<Seq<char>>)
    requires
        untouched_by(node, names),
    ensures
        prune_spec(compact_spec(node), names) == compact_spec(prune_spec(node, names)),
{
    lemma_prune_untouched(node, names);
    lemma_compact_untouched(node, names);
    lemma_prune_untouched(compact_spec(node), names);
}

// ---------------------------------------------------------------------------
// Pruning and compaction together

/// The children of a node after pruning and compaction of the node.
pub open spec fn normal_all(nodes: Seq<NodeView>, names: Set<Seq<char>>) -> Seq<NodeView> {
    merge_vals(compact_all(prune_all(nodes, names)))
}

proof fn lemma_push_merged_twice(acc: Seq<NodeView>, a: Seq<char>, b: Seq<char>)
    ensures
        push_merged(push_merged(acc, NodeView::Val(a)), NodeView::Val(b)) == push_merged(
            acc,
            NodeView::Val(a + b),
        ),
{
    if acc.len() > 0 && acc.last() is Val {
        let w = acc.last()->Val_0;
        let first = push_merged(acc, NodeView::Val(a));
        assert(first == acc.drop_last().push(NodeView::Val(w + a)));
        assert(first.drop_last() =~= acc.drop_last());
        assert((w + a) + b =~= w + (a + b));
        assert(push_merged(first, NodeView::Val(b)) =~= push_merged(acc, NodeView::Val(a + b)));
    } else {
        let first = push_merged(acc, NodeView::Val(a));
        assert(first == acc.push(NodeView::Val(a)));
        assert(first.drop_last() =~= acc);
        assert(push_merged(first, NodeView::Val(b)) =~= push_merged(acc, NodeView::Val(a + b)));
    }
}

proof fn lemma_merge_vals_idempotent(nodes: Seq<NodeView>)
    ensures
        merge_vals(merge_vals(nodes)) == merge_vals(nodes),
{
    lemma_merge_vals_merged(nodes);
    lemma_merge_vals_fixed(merge_vals(nodes));
}

proof fn lemma_merge_vals_push(nodes: Seq<NodeView>, node: NodeView)
    ensures
        merge_vals(nodes.push(node)) == push_merged(merge_vals(nodes), node),
{
    assert(nodes.push(node).drop_last() =~= nodes);
}

proof fn lemma_merge_add_left(a: Seq<NodeView>, b: Seq<NodeView>)
    ensures
        merge_vals(a + b) == merge_vals(merge_vals(a) + b),
    decreases b.len(),
{
    if b.len() == 0 {
        assert(a + b =~= a);
        assert(merge_vals(a) + b =~= merge_vals(a));
        lemma_merge_vals_idempotent(a);
    } else {
        lemma_merge_add_left(a, b.drop_last());
        assert((a + b).drop_last() =~= a + b.drop_last());
        assert((merge_vals(a) + b).drop_last() =~= merge_vals(a) + b.drop_last());
    }
}

proof fn lemma_merge_add_right(a: Seq<NodeView>, b: Seq<NodeView>)
    ensures
        merge_vals(a + b) == merge_vals(a + merge_vals(b)),
    decreases b.len(),
{
    if b.len() == 0 {
    } else {
        let init = b.drop_last();
        let x = b.last();
        let m = merge_vals(init);
        lemma_merge_add_right(a, init);
        assert((a + b).drop_last() =~= a + init);
        assert(merge_vals(a + b) == push_merged(merge_vals(a + m), x));
        if m.len() > 0 && m.last() is Val && x is Val {
            let y = m.drop_last();
            let u = m.last()->Val_0;
            let v = x->Val_0;
            assert(a + m =~= (a + y).push(NodeView::Val(u)));
            lemma_merge_vals_push(a + y, NodeView::Val(u));
            lemma_push_merged_twice(merge_vals(a + y), u, v);
            assert(a + merge_vals(b) =~= (a + y).push(NodeView::Val(u + v)));
            lemma_merge_vals_push(a + y, NodeView::Val(u + v));
        } else {
            assert(a + merge_vals(b) =~= (a + m).push(x));
            lemma_merge_vals_push(a + m, x);
        }
    }
}

proof fn lemma_prune_add(a: Seq<NodeView>, b: Seq<NodeView>, names: Set<Seq<char>>)
    ensures
        prune_all(a + b, names) == prune_all(a, names) + prune_all(b, names),
    decreases b.len(),
{
    if b.len() == 0 {
        assert(a + b =~= a);
        assert(prune_all(a, names) + prune_all(b, names) =~= prune_all(a, names));
    } else {
        lemma_prune_add(a, b.drop_last(), names);
        assert((a + b).drop_last() =~= a + b.drop_last());
        assert((a + b).last() == b.last());
        assert(prune_all(a + b, names) =~= prune_all(a, names) + prune_all(b, names));
    }
}

proof fn lemma_compact_all_add(a: Seq<NodeView>, b: Seq<NodeView>)
    ensures
        compact_all(a + b) == compact_all(a) + compact_all(b),
{
    assert(compact_all(a + b) =~= compact_all(a) + compact_all(b));
}

proof fn lemma_normal_add(a: Seq<NodeView>, b: Seq<NodeView>, names: Set<Seq<char>>)
    ensures
        normal_all(a + b, names) == merge_vals(normal_all(a, names) + normal_all(b, names)),
        normal_all(a + b, names) == merge_vals(
            normal_all(a, names) + compact_all(prune_all(b, names)),
        ),
{
    lemma_prune_add(a, b, names);
    lemma_compact_all_add(prune_all(a, names), prune_all(b, names));
    let ca = compact_all(prune_all(a, names));
    let cb = compact_all(prune_all(b, names));
    lemma_merge_add_left(ca, cb);
    lemma_merge_add_right(merge_vals(ca), cb);
}

proof fn lemma_normal_val(text: Seq<char>, names: Set<Seq<char>>)
    ensures
        compact_all(prune_all(seq![NodeView::Val(text)], names)) == seq![NodeView::Val(text)],
{
    let one = seq![NodeView::Val(text)];
    assert(one.drop_last() =~= Seq::<NodeView>::empty());
    assert(prune_all(one.drop_last(), names) =~= Seq::<NodeView>::empty());
    assert(prune_all(one, names) =~= one);
    assert(compact_all(one) =~= one);
}

proof fn lemma_normal_push_val(nodes: Seq<NodeView>, text: Seq<char>, names: Set<Seq<char>>)
    ensures
        normal_all(nodes.push(NodeView::Val(text)), names) == push_merged(
            normal_all(nodes, names),
            NodeView::Val(text),
        ),
{
    let one = seq![NodeView::Val(text)];
    assert(nodes.push(NodeView::Val(text)) =~= nodes + one);
    lemma_normal_add(nodes, one, names);
    lemma_normal_val(text, names);
    assert(normal_all(nodes, names) + one =~= normal_all(nodes, names).push(NodeView::Val(text)));
    lemma_merge_vals_push(normal_all(nodes, names), NodeView::Val(text));
    lemma_merge_vals_idempotent(compact_all(prune_all(nodes, names)));
}

proof fn lemma_normal_merge(nodes: Seq<NodeView>, names: Set<Seq<char>>)
    ensures
        normal_all(merge_vals(nodes), names) == normal_all(nodes, names),
    decreases nodes.len(),
{
    if nodes.len() > 0 {
        let init = nodes.drop_last();
        let x = nodes.last();
        let m = merge_vals(init);
        lemma_normal_merge(init, names);
        assert(nodes =~= init + seq![x]);
        lemma_normal_add(init, seq![x], names);
        if m.len() > 0 && m.last() is Val && x is Val {
            let y = m.drop_last();
            let u = m.last()->Val_0;
            let v = x->Val_0;
            assert(m =~= y.push(NodeView::Val(u)));
            assert(x == NodeView::Val(v));
            assert(init + seq![x] =~= init.push(NodeView::Val(v)));
            lemma_normal_push_val(init, v, names);
            lemma_normal_push_val(y, u, names);
            lemma_normal_push_val(y, u + v, names);
            lemma_push_merged_twice(normal_all(y, names), u, v);
        } else {
            assert(merge_vals(nodes) =~= m + seq![x]);
            lemma_normal_add(m, seq![x], names);
        }
    } else {
        assert(merge_vals(nodes) =~= nodes);
    }
}

proof fn lemma_normal_one(node: NodeView, names: Set<Seq<char>>)
    ensures
        normal_all(seq![node], names) == match node {
            NodeView::Rule(name, sub) => if names.contains(name) {
                normal_all(sub, names)
            } else {
                seq![NodeView::Rule(name, normal_all(sub, names))]
            },
            other => seq![other],
        },
{
    let one = seq![node];
    assert(one.drop_last() =~= Seq::<NodeView>::empty());
    assert(prune_all(one.drop_last(), names) =~= Seq::<NodeView>::empty());
    assert(one.last() == node);
    match node {
        NodeView::Rule(name, sub) => {
            if names.contains(name) {
                assert(prune_all(one, names) =~= prune_all(sub, names));
            } else {
                let kept = NodeView::Rule(name, prune_all(sub, names));
                assert(prune_all(one, names) =~= seq![kept]);
                assert(compact_all(seq![kept]) =~= seq![compact_spec(kept)]);
                let c = compact_spec(kept);
                assert(seq![c].drop_last() =~= Seq::<NodeView>::empty());
                assert(merge_vals(seq![c].drop_last()) =~= Seq::<NodeView>::empty());
                assert(merge_vals(seq![c]) =~= seq![c]);
            }
        },
        other => {
            assert(prune_all(one, names) =~= one);
            assert(compact_all(one) =~= one);
            assert(merge_vals(one.drop_last()) =~= Seq::<NodeView>::empty());
            assert(merge_vals(one) =~= one);
        },
    }
}

proof fn lemma_normal_compact_one(node: NodeView, names: Set<Seq<char>>)
    ensures
        normal_all(seq![compact_spec(node)], names) == normal_all(seq![node], names),
    decreases node, 0nat,
{
    lemma_normal_one(node, names);
    lemma_normal_one(compact_spec(node), names);
    match node {
        NodeView::Rule(name, sub) => {
            lemma_normal_merge(compact_all(sub), names);
            lemma_normal_compact_all(sub, sub.len() as int, names);
            assert(compact_all(sub).take(sub.len() as int) =~= compact_all(sub));
            assert(sub.take(sub.len() as int) =~= sub);
        },
        _ => {},
    }
}

proof fn lemma_normal_compact_all(nodes: Seq<NodeView>, k: int, names: Set<Seq<char>>)
    requires
        0 <= k <= nodes.len(),
    ensures
        normal_all(compact_all(nodes).take(k), names) == normal_all(nodes.take(k), names),
    decreases nodes, k + 1,
{
    if k == 0 {
        assert(compact_all(nodes).take(0) =~= nodes.take(0));
    } else {
        lemma_normal_compact_all(nodes, k - 1, names);
        lemma_normal_compact_one(nodes[k - 1], names);
        let done = compact_all(nodes).take(k - 1);
        let c = compact_spec(nodes[k - 1]);
        assert(compact_all(nodes).take(k) =~= done + seq![c]);
        assert(nodes.take(k) =~= nodes.take(k - 1) + seq![nodes[k - 1]]);
        lemma_normal_add(done, seq![c], names);
        lemma_normal_add(nodes.take(k - 1), seq![nodes[k - 1]], names);
    }
}

/// Whether its children were compacted before the pruning or not, a tree that
/// is pruned and then compacted is the same.
pub proof fn lemma_compact_prune_compact(node: NodeView, names: Set<Seq<char>>)
    ensures
        compact_spec(prune_spec(compact_spec(node), names)) == compact_spec(
            prune_spec(node, names),
        ),
{
    match node {
        NodeView::Rule(_, nodes) => {
            lemma_normal_merge(compact_all(nodes), names);
            lemma_normal_compact_all(nodes, nodes.len() as int, names);
            assert(compact_all(nodes).take(nodes.len() as int) =~= compact_all(nodes));
            assert(nodes.take(nodes.len() as int) =~= nodes);
        },
        _ => {},
    }
}

/// Pruning and compaction commute on exactly the trees whose compacted form
/// is still compacted after the pruning: those in which no removed node
/// brings a `Val` next to another.
pub proof fn lemma_prune_compact_commute(node: NodeView, names: Set<Seq<char>>)
    ensures
        prune_spec(compact_spec(node), names) == compact_spec(prune_spec(node, names))
            <==> compacted(prune_spec(compact_spec(node), names)),
{
    lemma_compact_prune_compact(node, names);
    if compacted(prune_spec(compact_spec(node), names)) {
        lemma_compacted_is_fixed(prune_spec(compact_spec(node), names));
    }
    lemma_compact_is_compacted(prune_spec(node, names));
}

} // verus!
