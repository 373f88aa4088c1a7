//! Facts about node counts that hold across calls: that the count does not
//! depend on the depth used to compute it, that a node counts itself and its
//! children, what extending a loop does to its count and to its finiteness,
//! and that the printed structure shows every counted node once.

use vstd::prelude::*;
use crate::structure::{lines_at, lines_of_all, node_lines, structure_of, LineKind, StructureLine};
use crate::callbacks::{BelowUpperBound, LoopStep, LoopTest, StepByOne};
use crate::ast::{bounded, node_bounded, node_size, subtree_size, sum_sizes, extended, Node, NodeId, Stmt};

verus! {

/// A larger depth bound keeps every chain below `ids` bounded and leaves
/// their sizes unchanged.
proof fn lemma_depth_ids(nodes: Seq<Node>, ids: Seq<NodeId>, d1: nat, d2: nat)
    requires
        d1 <= d2,
        forall|i: int| 0 <= i < ids.len() ==> bounded(nodes, #[trigger] ids[i], d1),
    ensures
        forall|i: int| 0 <= i < ids.len() ==> bounded(nodes, #[trigger] ids[i], d2),
        sum_sizes(nodes, ids, d1) == sum_sizes(nodes, ids, d2),
    decreases d1, ids.len(),
{
    if ids.len() > 0 {
        let front = ids.drop_last();
        assert forall|i: int| 0 <= i < front.len() implies bounded(nodes, #[trigger] front[i], d1) by {
            assert(front[i] == ids[i]);
        }
        lemma_depth_ids(nodes, front, d1, d2);
        let id: NodeId = ids.last();
        assert(bounded(nodes, ids[ids.len() - 1], d1));
        let kids = nodes[id as int].children();
        lemma_depth_ids(nodes, kids, (d1 - 1) as nat, (d2 - 1) as nat);
        assert(subtree_size(nodes, id, d1) == subtree_size(nodes, id, d2));
        assert forall|i: int| 0 <= i < ids.len() implies bounded(nodes, #[trigger] ids[i], d2) by {
            if i < ids.len() - 1 {
                assert(front[i] == ids[i]);
            }
        }
    }
}

/// `node_bounded` and `node_size` do not depend on the depth once it suffices.
pub proof fn lemma_depth_node(nodes: Seq<Node>, node: Node, d1: nat, d2: nat)
    requires
        d1 <= d2,
        node_bounded(nodes, node, d1),
    ensures
        node_bounded(nodes, node, d2),
        node_size(nodes, node, d1) == node_size(nodes, node, d2),
{
    lemma_depth_ids(nodes, node.children(), d1, d2);
}

/// Any depth that bounds a finite node gives its count.
pub proof fn lemma_count_at(nodes: Seq<Node>, node: Node, d: nat)
    requires
        node_bounded(nodes, node, d),
    ensures
        node.is_finite_in(nodes),
        node.count_in(nodes) == node_size(nodes, node, d),
{
    let c: nat = node.finite_depth(nodes);
    if c <= d {
        lemma_depth_node(nodes, node, c, d);
    } else {
        lemma_depth_node(nodes, node, d, c);
    }
}

/// A node without children counts one.
pub proof fn law_leaf_counts_one(nodes: Seq<Node>, node: Node)
    requires
        node.children().len() == 0,
    ensures
        node.is_finite_in(nodes),
        node.count_in(nodes) == 1,
{
    assert(node_bounded(nodes, node, 0));
    lemma_count_at(nodes, node, 0);
}

/// The sum of the counts of the nodes at `ids`.
pub open spec fn sum_counts(nodes: Seq<Node>, ids: Seq<NodeId>) -> nat
    decreases ids.len(),
{
    if ids.len() == 0 {
        0
    } else {
        sum_counts(nodes, ids.drop_last()) + nodes[ids.last() as int].count_in(nodes)
    }
}

proof fn lemma_sum_counts(nodes: Seq<Node>, ids: Seq<NodeId>, d: nat)
    requires
        forall|i: int| 0 <= i < ids.len() ==> bounded(nodes, #[trigger] ids[i], d),
    ensures
        forall|i: int| 0 <= i < ids.len() ==> nodes[#[trigger] ids[i] as int].is_finite_in(nodes),
        sum_sizes(nodes, ids, d) == sum_counts(nodes, ids),
    decreases ids.len(),
{
    if ids.len() > 0 {
        let front = ids.drop_last();
        assert forall|i: int| 0 <= i < front.len() implies bounded(nodes, #[trigger] front[i], d) by {
            assert(front[i] == ids[i]);
        }
        lemma_sum_counts(nodes, front, d);
        let id: NodeId = ids.last();
        assert(bounded(nodes, ids[ids.len() - 1], d));
        lemma_count_at(nodes, nodes[id as int], (d - 1) as nat);
        assert(subtree_size(nodes, id, d) == node_size(nodes, nodes[id as int], (d - 1) as nat));
        assert forall|i: int| 0 <= i < ids.len() implies nodes[#[trigger] ids[i] as int].is_finite_in(nodes) by {
            if i < ids.len() - 1 {
                assert(front[i] == ids[i]);
            }
        }
    }
}

/// A finite node counts itself once and, in order, every node below each of
/// its children: a loop or block counts one more than its body, a branch
/// one more than its arms, and an array reference one.
pub proof fn law_count_children(nodes: Seq<Node>, node: Node)
    requires
        node.is_finite_in(nodes),
    ensures
        forall|i: int| 0 <= i < node.children().len()
            ==> nodes[#[trigger] node.children()[i] as int].is_finite_in(nodes),
        node.count_in(nodes) == 1 + sum_counts(nodes, node.children()),
{
    let d: nat = node.finite_depth(nodes);
    lemma_sum_counts(nodes, node.children(), d);
}


/// A depth that bounds `node` and below which no depth does.
proof fn lemma_min_depth(nodes: Seq<Node>, node: Node, d: nat) -> (m: nat)
    requires
        node_bounded(nodes, node, d),
    ensures
        m <= d,
        node_bounded(nodes, node, m),
        forall|e: nat| e < m ==> !node_bounded(nodes, node, e),
    decreases d,
{
    if exists|e: nat| e < d && node_bounded(nodes, node, e) {
        let e: nat = choose|e: nat| e < d && node_bounded(nodes, node, e);
        lemma_min_depth(nodes, node, e)
    } else {
        d
    }
}

/// `a` and `b` hold the same number of nodes, and every node but `lup` has
/// the same children in both.
pub open spec fn agree_except(a: Seq<Node>, b: Seq<Node>, lup: NodeId) -> bool {
    &&& a.len() == b.len()
    &&& forall|i: int| 0 <= i < a.len() && i != lup ==> #[trigger] a[i].children() == b[i].children()
}

proof fn lemma_extended_agree(before: Seq<Node>, after: Seq<Node>, lup: NodeId, stmt: NodeId)
    requires
        lup < before.len(),
        stmt < before.len(),
        extended(before, after, lup, stmt),
    ensures
        agree_except(before, after, lup),
        agree_except(after, before, lup),
{
    assert forall|i: int| 0 <= i < before.len() && i != lup implies #[trigger] before[i].children() == after[i].children() by {
        if i != stmt {
            assert(after[i] == before[i]);
        }
    }
}

/// Below nodes from which `lup` cannot be reached within `d` steps, `b` looks
/// like `a`; `lup` is out of reach when no depth below `d` bounds it in `a`.
proof fn lemma_frame(a: Seq<Node>, b: Seq<Node>, lup: NodeId, ids: Seq<NodeId>, d: nat)
    requires
        agree_except(a, b, lup),
        forall|i: int| 0 <= i < ids.len() ==> bounded(a, #[trigger] ids[i], d),
        forall|e: nat| e < d ==> !node_bounded(a, a[lup as int], e),
    ensures
        forall|i: int| 0 <= i < ids.len() ==> bounded(b, #[trigger] ids[i], d),
        sum_sizes(a, ids, d) == sum_sizes(b, ids, d),
    decreases d, ids.len(),
{
    if ids.len() > 0 {
        let front = ids.drop_last();
        assert forall|i: int| 0 <= i < front.len() implies bounded(a, #[trigger] front[i], d) by {
            assert(front[i] == ids[i]);
        }
        lemma_frame(a, b, lup, front, d);
        let id: NodeId = ids.last();
        assert(bounded(a, ids[ids.len() - 1], d));
        assert(id != lup) by {
            if id == lup {
                assert(node_bounded(a, a[lup as int], (d - 1) as nat));
            }
        }
        assert(a[id as int].children() == b[id as int].children());
        let kids = a[id as int].children();
        lemma_frame(a, b, lup, kids, (d - 1) as nat);
        assert(node_bounded(b, b[id as int], (d - 1) as nat));
        assert(subtree_size(a, id, d) == subtree_size(b, id, d));
        assert forall|i: int| 0 <= i < ids.len() implies bounded(b, #[trigger] ids[i], d) by {
            if i < ids.len() - 1 {
                assert(front[i] == ids[i]);
            }
        }
    }
}

/// Every chain of children that starts at `id` stays among `nodes`, holds
/// fewer than `depth` nodes, and never passes `target`.
pub open spec fn avoids(nodes: Seq<Node>, id: NodeId, target: NodeId, depth: nat) -> bool
    decreases depth,
{
    &&& depth > 0
    &&& id < nodes.len()
    &&& id != target
    &&& forall|i: int| 0 <= i < nodes[id as int].children().len()
        ==> avoids(nodes, #[trigger] nodes[id as int].children()[i], target, (depth - 1) as nat)
}

/// What avoids `lup` in `a` is bounded in `b` as well.
proof fn lemma_avoids_bounded(a: Seq<Node>, b: Seq<Node>, lup: NodeId, id: NodeId, d: nat)
    requires
        agree_except(a, b, lup),
        avoids(a, id, lup, d),
    ensures
        bounded(b, id, d),
    decreases d,
{
    let kids = a[id as int].children();
    assert(a[id as int].children() == b[id as int].children());
    assert forall|i: int| 0 <= i < kids.len() implies bounded(b, #[trigger] kids[i], (d - 1) as nat) by {
        lemma_avoids_bounded(a, b, lup, kids[i], (d - 1) as nat);
    }
}

/// Extending the body of a finite loop `lup` by a node `stmt` from which no
/// chain of children reaches `lup` leaves `lup` finite.
pub proof fn law_extend_finite(before: Seq<Node>, after: Seq<Node>, lup: NodeId, stmt: NodeId, depth: nat)
    requires
        lup < before.len(),
        stmt < before.len(),
        extended(before, after, lup, stmt),
        before[lup as int].is_finite_in(before),
        avoids(before, stmt, lup, depth),
    ensures
        after[lup as int].is_finite_in(after),
{
    lemma_extended_agree(before, after, lup, stmt);
    let d0: nat = before[lup as int].finite_depth(before);
    let d1: nat = lemma_min_depth(before, before[lup as int], d0);
    let body = before[lup as int].children();
    let kids = after[lup as int].children();
    lemma_frame(before, after, lup, body, d1);
    lemma_avoids_bounded(before, after, lup, stmt, depth);
    let d: nat = if d1 <= depth { depth } else { d1 };
    lemma_depth_ids(after, body, d1, d);
    lemma_depth_ids(after, seq![stmt], depth, d);
    assert(seq![stmt][0] == stmt);
    match before[lup as int].stmt {
        Stmt::Loop(l) => {
            assert(kids == body.push(stmt));
        },
        _ => {
            assert(kids == body);
        },
    }
    assert forall|i: int| 0 <= i < kids.len() implies bounded(after, #[trigger] kids[i], d) by {
        if i < body.len() {
            assert(kids[i] == body[i]);
        } else {
            assert(kids[i] == stmt);
        }
    }
    assert(node_bounded(after, after[lup as int], d));
}

/// Extending the body of a loop `lup` by `stmt`, where this makes no chain
/// of children come back to `lup`, raises the count of `lup` by the count of
/// `stmt`.
pub proof fn law_extend_count(before: Seq<Node>, after: Seq<Node>, lup: NodeId, stmt: NodeId)
    requires
        lup < before.len(),
        stmt < before.len(),
        extended(before, after, lup, stmt),
        before[lup as int].stmt is Loop,
        after[lup as int].is_finite_in(after),
    ensures
        before[lup as int].is_finite_in(before),
        before[stmt as int].is_finite_in(before),
        after[lup as int].count_in(after) == before[lup as int].count_in(before)
            + before[stmt as int].count_in(before),
{
    let d0: nat = after[lup as int].finite_depth(after);
    let d: nat = lemma_min_depth(after, after[lup as int], d0);
    let body = before[lup as int].children();
    let kids = after[lup as int].children();
    assert(kids == body.push(stmt));
    lemma_extended_agree(before, after, lup, stmt);
    lemma_frame(after, before, lup, kids, d);
    assert(kids.drop_last() =~= body);
    assert(kids[kids.len() - 1] == stmt);
    assert(bounded(before, stmt, d));
    assert forall|i: int| 0 <= i < body.len() implies bounded(before, #[trigger] body[i], d) by {
        assert(kids[i] == body[i]);
    }
    assert(node_bounded(before, before[lup as int], d));
    assert(sum_sizes(before, kids, d) == sum_sizes(before, body, d) + subtree_size(before, stmt, d));
    assert(subtree_size(before, stmt, d) == node_size(before, before[stmt as int], (d - 1) as nat));
    lemma_count_at(after, after[lup as int], d);
    lemma_count_at(before, before[lup as int], d);
    lemma_count_at(before, before[stmt as int], (d - 1) as nat);
}


/// The number of lines among `lines` that show a node, that is all but the
/// markers of else arms.
pub open spec fn shown_nodes(lines: Seq<StructureLine>) -> nat
    decreases lines.len(),
{
    if lines.len() == 0 {
        0
    } else {
        shown_nodes(lines.drop_last()) + if lines.last().kind is Else { 0nat } else { 1nat }
    }
}

proof fn lemma_shown_nodes_add(a: Seq<StructureLine>, b: Seq<StructureLine>)
    ensures
        shown_nodes(a + b) == shown_nodes(a) + shown_nodes(b),
    decreases b.len(),
{
    if b.len() == 0 {
        assert(a + b =~= a);
    } else {
        lemma_shown_nodes_add(a, b.drop_last());
        assert((a + b).drop_last() =~= a + b.drop_last());
    }
}

proof fn lemma_shown_subtree(nodes: Seq<Node>, id: NodeId, level: nat, depth: nat)
    ensures
        shown_nodes(lines_at(nodes, id, level, depth)) == subtree_size(nodes, id, depth),
    decreases depth, 0nat,
{
    if depth > 0 && id < nodes.len() {
        lemma_shown_node(nodes, id, nodes[id as int], level, (depth - 1) as nat);
    } else {
        assert(lines_at(nodes, id, level, depth) =~= Seq::<StructureLine>::empty());
    }
}

proof fn lemma_shown_node(nodes: Seq<Node>, id: NodeId, node: Node, level: nat, depth: nat)
    ensures
        shown_nodes(node_lines(nodes, id, node, level, depth)) == node_size(nodes, node, depth),
    decreases depth, node.children().len() + 1,
{
    assert(shown_nodes(Seq::<StructureLine>::empty()) == 0);
    assert(sum_sizes(nodes, Seq::<NodeId>::empty(), depth) == 0);
    match node.stmt {
        Stmt::Loop(l) => {
            let first = seq![StructureLine { level: level as usize, kind: LineKind::Loop(id) }];
            lemma_shown_all(nodes, l.body@, level + 1, depth);
            lemma_shown_nodes_add(first, lines_of_all(nodes, l.body@, level + 1, depth));
            assert(first.drop_last() =~= Seq::<StructureLine>::empty());
        },
        Stmt::Ref(_) => {
            let first = seq![StructureLine { level: level as usize, kind: LineKind::Ref(id) }];
            assert(first.drop_last() =~= Seq::<StructureLine>::empty());
            assert(node.children() =~= Seq::<NodeId>::empty());
        },
        Stmt::Block(v) => {
            let first = seq![StructureLine { level: level as usize, kind: LineKind::Block }];
            lemma_shown_all(nodes, v@, level + 1, depth);
            lemma_shown_nodes_add(first, lines_of_all(nodes, v@, level + 1, depth));
            assert(first.drop_last() =~= Seq::<StructureLine>::empty());
        },
        Stmt::Branch(b) => {
            let first = seq![StructureLine { level: level as usize, kind: LineKind::BranchThen }];
            assert(first.drop_last() =~= Seq::<StructureLine>::empty());
            let then_lines = lines_at(nodes, b.then_body, level + 1, depth);
            lemma_shown_subtree(nodes, b.then_body, level + 1, depth);
            lemma_shown_nodes_add(first, then_lines);
            assert(shown_nodes(first) == 1);
            let kids = node.children();
            assert(seq![b.then_body].drop_last() =~= Seq::<NodeId>::empty());
            match b.else_body {
                Some(e) => {
                    let marker = seq![StructureLine { level: level as usize, kind: LineKind::Else }];
                    assert(marker.drop_last() =~= Seq::<StructureLine>::empty());
                    assert(shown_nodes(marker) == 0);
                    let else_lines = lines_at(nodes, e, level + 1, depth);
                    lemma_shown_subtree(nodes, e, level + 1, depth);
                    lemma_shown_nodes_add(marker, else_lines);
                    lemma_shown_nodes_add(first + then_lines, marker + else_lines);
                    assert(kids.drop_last() =~= seq![b.then_body]);
                    assert(first + then_lines + (marker + else_lines) =~= node_lines(nodes, id, node, level, depth));
                },
                None => {
                    lemma_shown_nodes_add(first + then_lines, Seq::<StructureLine>::empty());
                    assert(first + then_lines + Seq::<StructureLine>::empty() =~= node_lines(nodes, id, node, level, depth));
                    assert(kids =~= seq![b.then_body]);
                },
            }
        },
    }
}

proof fn lemma_shown_all(nodes: Seq<Node>, ids: Seq<NodeId>, level: nat, depth: nat)
    ensures
        shown_nodes(lines_of_all(nodes, ids, level, depth)) == sum_sizes(nodes, ids, depth),
    decreases depth, ids.len(),
{
    if ids.len() > 0 {
        lemma_shown_all(nodes, ids.drop_last(), level, depth);
        lemma_shown_subtree(nodes, ids.last(), level, depth);
        lemma_shown_nodes_add(
            lines_of_all(nodes, ids.drop_last(), level, depth),
            lines_at(nodes, ids.last(), level, depth),
        );
    } else {
        assert(lines_of_all(nodes, ids, level, depth) =~= Seq::<StructureLine>::empty());
    }
}

/// The structure of a finite subtree shows one line for every node that
/// `node_count` counts; its other lines mark else arms.
pub proof fn law_structure_shows_counted_nodes(nodes: Seq<Node>, id: NodeId)
    requires
        id < nodes.len(),
        nodes[id as int].is_finite_in(nodes),
    ensures
        shown_nodes(structure_of(nodes, id)) == nodes[id as int].count_in(nodes),
{
    let d: nat = nodes[id as int].finite_depth(nodes);
    lemma_shown_node(nodes, id, nodes[id as int], 0, d);
    lemma_count_at(nodes, nodes[id as int], d);
}


/// The test and step that `new_single_loop` and `new_single_loop_dyn_ub`
/// store behave as `|i, ub| i < ub` and `|i| i + 1`: the test accepts every
/// pair and answers `i < ub`; the step accepts every value below `i32::MAX`
/// and gives the next one.
pub proof fn law_default_test_and_step()
    ensures
        forall|i: i32, ub: i32| #[trigger] BelowUpperBound.test_requires(i, ub),
        forall|i: i32, ub: i32, r: bool| #[trigger] BelowUpperBound.test_ensures(i, ub, r) <==> r == (i < ub),
        forall|i: i32| #[trigger] StepByOne.step_requires(i) <==> i < i32::MAX,
        forall|i: i32, r: i32| #[trigger] StepByOne.step_ensures(i, r) <==> r == i + 1,
{
}

} // verus!
