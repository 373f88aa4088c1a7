//! How the printed structure of a subtree is laid out: the children of a
//! loop or block in body order, one else marker for every branch that has
//! an else arm, and none for a branch without one.

use vstd::prelude::*;
use crate::ast::{Node, NodeId, Stmt};
use crate::structure::{lines_at, lines_of_all, node_lines, structure_of, LineKind, StructureLine};

verus! {

proof fn lemma_lines_of_all_add(nodes: Seq<Node>, a: Seq<NodeId>, b: Seq<NodeId>, level: nat, depth: nat)
    ensures
        lines_of_all(nodes, a + b, level, depth) == lines_of_all(nodes, a, level, depth) + lines_of_all(nodes, b, level, depth),
    decreases b.len(),
{
    if b.len() == 0 {
        assert(a + b =~= a);
        assert(lines_of_all(nodes, a, level, depth) + lines_of_all(nodes, b, level, depth)
            =~= lines_of_all(nodes, a, level, depth));
    } else {
        lemma_lines_of_all_add(nodes, a, b.drop_last(), level, depth);
        assert((a + b).drop_last() =~= a + b.drop_last());
        assert((a + b).last() == b.last());
        assert(lines_of_all(nodes, a, level, depth) + lines_of_all(nodes, b.drop_last(), level, depth)
            + lines_at(nodes, b.last(), level, depth)
            =~= lines_of_all(nodes, a, level, depth) + (lines_of_all(nodes, b.drop_last(), level, depth)
            + lines_at(nodes, b.last(), level, depth)));
    }
}

proof fn lemma_lines_of_one(nodes: Seq<Node>, id: NodeId, level: nat, depth: nat)
    ensures
        lines_of_all(nodes, seq![id], level, depth) == lines_at(nodes, id, level, depth),
{
    assert(seq![id].drop_last() =~= Seq::<NodeId>::empty());
    assert(lines_of_all(nodes, Seq::<NodeId>::empty(), level, depth) == Seq::<StructureLine>::empty());
    assert(Seq::<StructureLine>::empty() + lines_at(nodes, id, level, depth) =~= lines_at(nodes, id, level, depth));
}

/// The lines of a sequence of children are the lines of each child, one
/// after the other in the order of the sequence: for every position `i`,
/// the lines of the children before `i`, then those of child `i`, then
/// those of the children after it.
pub proof fn law_children_lines_in_order(nodes: Seq<Node>, ids: Seq<NodeId>, i: int, level: nat, depth: nat)
    requires
        0 <= i < ids.len(),
    ensures
        lines_of_all(nodes, ids, level, depth) == lines_of_all(nodes, ids.take(i), level, depth)
            + lines_at(nodes, ids[i], level, depth) + lines_of_all(nodes, ids.skip(i + 1), level, depth),
{
    let front = ids.take(i);
    let back = ids.skip(i + 1);
    assert(ids =~= front + seq![ids[i]] + back);
    lemma_lines_of_all_add(nodes, front + seq![ids[i]], back, level, depth);
    lemma_lines_of_all_add(nodes, front, seq![ids[i]], level, depth);
    lemma_lines_of_one(nodes, ids[i], level, depth);
}

/// The first line of a subtree shows its root at the given level: the loop
/// or the array reference itself, or the marker of a block or a branch.
pub proof fn law_first_line_shows_root(nodes: Seq<Node>, id: NodeId, level: nat, depth: nat)
    requires
        id < nodes.len(),
        level <= usize::MAX,
    ensures
        lines_at(nodes, id, level, depth + 1).len() > 0,
        lines_at(nodes, id, level, depth + 1)[0] == (StructureLine {
            level: level as usize,
            kind: match nodes[id as int].stmt {
                Stmt::Loop(_) => LineKind::Loop(id),
                Stmt::Ref(_) => LineKind::Ref(id),
                Stmt::Block(_) => LineKind::Block,
                Stmt::Branch(_) => LineKind::BranchThen,
            },
        }),
{
}

/// The lines of a loop are its own line followed by the lines of its body,
/// child by child in body order, one level deeper; so are those of a block
/// after its marker.
pub proof fn law_body_lines_follow_in_order(nodes: Seq<Node>, id: NodeId, i: int, level: nat, depth: nat)
    requires
        id < nodes.len(),
        (nodes[id as int].stmt is Loop || nodes[id as int].stmt is Block),
        0 <= i < nodes[id as int].children().len(),
    ensures
        ({
            let body = nodes[id as int].children();
            let lines = lines_at(nodes, id, level, depth + 1);
            lines == seq![lines[0]] + lines_of_all(nodes, body.take(i), level + 1, depth)
                + lines_at(nodes, body[i], level + 1, depth)
                + lines_of_all(nodes, body.skip(i + 1), level + 1, depth)
        }),
{
    let body = nodes[id as int].children();
    law_children_lines_in_order(nodes, body, i, level + 1, depth);
    let lines = lines_at(nodes, id, level, depth + 1);
    assert(lines == seq![lines[0]] + lines_of_all(nodes, body, level + 1, depth));
}

/// A branch without an else arm shows its marker and then the lines of its
/// then arm, and nothing more: no else marker.
pub proof fn law_branch_without_else(nodes: Seq<Node>, id: NodeId, level: nat, depth: nat)
    requires
        id < nodes.len(),
        (nodes[id as int].stmt is Branch),
        (nodes[id as int].stmt->Branch_0.else_body is None),
    ensures
        lines_at(nodes, id, level, depth + 1) == seq![(StructureLine { level: level as usize, kind: LineKind::BranchThen })]
            + lines_at(nodes, nodes[id as int].stmt->Branch_0.then_body, level + 1, depth),
{
    let b = nodes[id as int].stmt->Branch_0;
    assert(lines_at(nodes, id, level, depth + 1) =~= seq![StructureLine { level: level as usize, kind: LineKind::BranchThen }]
        + lines_at(nodes, b.then_body, level + 1, depth) + Seq::<StructureLine>::empty());
}

/// A branch with an else arm shows its marker, the lines of its then arm
/// one level deeper, an else marker at its own level, and the lines of its
/// else arm one level deeper.
pub proof fn law_branch_with_else(nodes: Seq<Node>, id: NodeId, level: nat, depth: nat)
    requires
        id < nodes.len(),
        (nodes[id as int].stmt is Branch),
        (nodes[id as int].stmt->Branch_0.else_body is Some),
    ensures
        ({
            let b = nodes[id as int].stmt->Branch_0;
            lines_at(nodes, id, level, depth + 1)
                == seq![(StructureLine { level: level as usize, kind: LineKind::BranchThen })]
                + lines_at(nodes, b.then_body, level + 1, depth)
                + seq![(StructureLine { level: level as usize, kind: LineKind::Else })]
                + lines_at(nodes, b.else_body->0, level + 1, depth)
        }),
{
    let b = nodes[id as int].stmt->Branch_0;
    let first = seq![StructureLine { level: level as usize, kind: LineKind::BranchThen }];
    let marker = seq![StructureLine { level: level as usize, kind: LineKind::Else }];
    let t = lines_at(nodes, b.then_body, level + 1, depth);
    let e = lines_at(nodes, b.else_body->0, level + 1, depth);
    assert(lines_at(nodes, id, level, depth + 1) == first + t + (marker + e));
    assert(first + t + (marker + e) =~= first + t + marker + e);
}

/// An array reference shows a single line: itself, at the given level.
pub proof fn law_reference_single_line(nodes: Seq<Node>, id: NodeId, level: nat, depth: nat)
    requires
        id < nodes.len(),
        (nodes[id as int].stmt is Ref),
    ensures
        lines_at(nodes, id, level, depth + 1)
            == seq![(StructureLine { level: level as usize, kind: LineKind::Ref(id) })],
{
}

/// The number of else markers among `lines`.
pub open spec fn else_marks(lines: Seq<StructureLine>) -> nat
    decreases lines.len(),
{
    if lines.len() == 0 {
        0
    } else {
        else_marks(lines.drop_last()) + if lines.last().kind is Else { 1nat } else { 0nat }
    }
}

/// The number of branches with an else arm below and including `id`, each
/// counted once for every chain of children that reaches it, looking no
/// deeper than `depth`.
pub open spec fn else_arms(nodes: Seq<Node>, id: NodeId, depth: nat) -> nat
    decreases depth, 0nat,
{
    if depth == 0 || id >= nodes.len() {
        0
    } else {
        node_else_arms(nodes, nodes[id as int], (depth - 1) as nat)
    }
}

/// One for `node` if it is a branch with an else arm, and the else arms
/// below its children.
pub open spec fn node_else_arms(nodes: Seq<Node>, node: Node, depth: nat) -> nat
    decreases depth, node.children().len() + 1,
{
    (if node.stmt is Branch && node.stmt->Branch_0.else_body is Some { 1nat } else { 0nat })
        + sum_else_arms(nodes, node.children(), depth)
}

/// The else arms below the nodes at `ids`.
pub open spec fn sum_else_arms(nodes: Seq<Node>, ids: Seq<NodeId>, depth: nat) -> nat
    decreases depth, ids.len(),
{
    if ids.len() == 0 {
        0
    } else {
        sum_else_arms(nodes, ids.drop_last(), depth) + else_arms(nodes, ids.last(), depth)
    }
}

proof fn lemma_else_marks_add(a: Seq<StructureLine>, b: Seq<StructureLine>)
    ensures
        else_marks(a + b) == else_marks(a) + else_marks(b),
    decreases b.len(),
{
    if b.len() == 0 {
        assert(a + b =~= a);
    } else {
        lemma_else_marks_add(a, b.drop_last());
        assert((a + b).drop_last() =~= a + b.drop_last());
    }
}

proof fn lemma_else_subtree(nodes: Seq<Node>, id: NodeId, level: nat, depth: nat)
    ensures
        else_marks(lines_at(nodes, id, level, depth)) == else_arms(nodes, id, depth),
    decreases depth, 0nat,
{
    if depth > 0 && id < nodes.len() {
        lemma_else_node(nodes, id, nodes[id as int], level, (depth - 1) as nat);
    } else {
        assert(lines_at(nodes, id, level, depth) =~= Seq::<StructureLine>::empty());
    }
}

proof fn lemma_else_node(nodes: Seq<Node>, id: NodeId, node: Node, level: nat, depth: nat)
    ensures
        else_marks(node_lines(nodes, id, node, level, depth)) == node_else_arms(nodes, node, depth),
    decreases depth, node.children().len() + 1,
{
    assert(else_marks(Seq::<StructureLine>::empty()) == 0);
    assert(sum_else_arms(nodes, Seq::<NodeId>::empty(), depth) == 0);
    match node.stmt {
        Stmt::Loop(l) => {
            let first = seq![StructureLine { level: level as usize, kind: LineKind::Loop(id) }];
            assert(first.drop_last() =~= Seq::<StructureLine>::empty());
            lemma_else_all(nodes, l.body@, level + 1, depth);
            lemma_else_marks_add(first, lines_of_all(nodes, l.body@, level + 1, depth));
        },
        Stmt::Ref(_) => {
            let first = seq![StructureLine { level: level as usize, kind: LineKind::Ref(id) }];
            assert(first.drop_last() =~= Seq::<StructureLine>::empty());
            assert(node.children() =~= Seq::<NodeId>::empty());
        },
        Stmt::Block(v) => {
            let first = seq![StructureLine { level: level as usize, kind: LineKind::Block }];
            assert(first.drop_last() =~= Seq::<StructureLine>::empty());
            lemma_else_all(nodes, v@, level + 1, depth);
            lemma_else_marks_add(first, lines_of_all(nodes, v@, level + 1, depth));
        },
        Stmt::Branch(b) => {
            let first = seq![StructureLine { level: level as usize, kind: LineKind::BranchThen }];
            assert(first.drop_last() =~= Seq::<StructureLine>::empty());
            assert(else_marks(first) == 0);
            let then_lines = lines_at(nodes, b.then_body, level + 1, depth);
            lemma_else_subtree(nodes, b.then_body, level + 1, depth);
            lemma_else_marks_add(first, then_lines);
            let kids = node.children();
            assert(seq![b.then_body].drop_last() =~= Seq::<NodeId>::empty());
            match b.else_body {
                Some(e) => {
                    let marker = seq![StructureLine { level: level as usize, kind: LineKind::Else }];
                    assert(marker.drop_last() =~= Seq::<StructureLine>::empty());
                    assert(else_marks(marker) == 1);
                    let else_lines = lines_at(nodes, e, level + 1, depth);
                    lemma_else_subtree(nodes, e, level + 1, depth);
                    lemma_else_marks_add(marker, else_lines);
                    lemma_else_marks_add(first + then_lines, marker + else_lines);
                    assert(kids.drop_last() =~= seq![b.then_body]);
                    assert(first + then_lines + (marker + else_lines) =~= node_lines(nodes, id, node, level, depth));
                },
                None => {
                    lemma_else_marks_add(first + then_lines, Seq::<StructureLine>::empty());
                    assert(first + then_lines + Seq::<StructureLine>::empty() =~= node_lines(nodes, id, node, level, depth));
                    assert(kids =~= seq![b.then_body]);
                },
            }
        },
    }
}

proof fn lemma_else_all(nodes: Seq<Node>, ids: Seq<NodeId>, level: nat, depth: nat)
    ensures
        else_marks(lines_of_all(nodes, ids, level, depth)) == sum_else_arms(nodes, ids, depth),
    decreases depth, ids.len(),
{
    if ids.len() > 0 {
        lemma_else_all(nodes, ids.drop_last(), level, depth);
        lemma_else_subtree(nodes, ids.last(), level, depth);
        lemma_else_marks_add(
            lines_of_all(nodes, ids.drop_last(), level, depth),
            lines_at(nodes, ids.last(), level, depth),
        );
    } else {
        assert(lines_of_all(nodes, ids, level, depth) =~= Seq::<StructureLine>::empty());
    }
}

/// The structure of a subtree holds one else marker for every branch with
/// an else arm that it reaches, and no other.
pub proof fn law_else_marks_count_else_arms(nodes: Seq<Node>, id: NodeId)
    requires
        id < nodes.len(),
    ensures
        else_marks(structure_of(nodes, id))
            == else_arms(nodes, id, nodes[id as int].finite_depth(nodes) + 1),
{
    lemma_else_subtree(nodes, id, 0, nodes[id as int].finite_depth(nodes) + 1);
}

} // verus!
