//! The printed structure of a loop tree, as a list of lines: which node or
//! marker each line shows and how deeply it is nested.  Turning a line into
//! text is left to the caller.

use vstd::prelude::*;
use crate::ast::{bounded, node_bounded, LoopTree, Node, NodeId, Stmt};

verus! {

/// What one line of the structure shows.
#[derive(Clone, Copy, Debug, PartialEq, Eq, Structural)]
pub enum LineKind {
    /// The loop at this node: its induction variable, bounds and rank.
    Loop(NodeId),
    /// The array reference at this node: its name and subscripts.
    Ref(NodeId),
    /// The start of a block.
    Block,
    /// The start of a branch; its then arm follows.
    BranchThen,
    /// The else arm of the branch above follows.
    Else,
}

/// One line of the structure, nested `level` steps below the first line.
#[derive(Clone, Copy, Debug, PartialEq, Eq, Structural)]
pub struct StructureLine {
    pub level: usize,
    pub kind: LineKind,
}

/// The lines of the subtree at `id`, nested `level` deep: a loop shows
/// itself and then its body one level deeper; an array reference shows
/// itself; a block shows a marker and then its statements one level
/// deeper; a branch shows a marker, its then arm one level deeper and,
/// when it has one, an else marker and its else arm one level deeper.
pub open spec fn lines_at(nodes: Seq<Node>, id: NodeId, level: nat, depth: nat) -> Seq<StructureLine>
    decreases depth, 0nat,
{
    if depth == 0 || id >= nodes.len() {
        Seq::empty()
    } else {
        node_lines(nodes, id, nodes[id as int], level, (depth - 1) as nat)
    }
}

/// The lines of `node`, which sits at `id`.
pub open spec fn node_lines(nodes: Seq<Node>, id: NodeId, node: Node, level: nat, depth: nat) -> Seq<StructureLine>
    decreases depth, node.children().len() + 1,
{
    match node.stmt {
        Stmt::Loop(l) => seq![StructureLine { level: level as usize, kind: LineKind::Loop(id) }]
            + lines_of_all(nodes, l.body@, level + 1, depth),
        Stmt::Ref(_) => seq![StructureLine { level: level as usize, kind: LineKind::Ref(id) }],
        Stmt::Block(v) => seq![StructureLine { level: level as usize, kind: LineKind::Block }]
            + lines_of_all(nodes, v@, level + 1, depth),
        Stmt::Branch(b) => seq![StructureLine { level: level as usize, kind: LineKind::BranchThen }]
            + lines_at(nodes, b.then_body, level + 1, depth) + match b.else_body {
                Some(e) => seq![StructureLine { level: level as usize, kind: LineKind::Else }]
                    + lines_at(nodes, e, level + 1, depth),
                None => Seq::empty(),
            },
    }
}

/// The lines of the subtrees at `ids`, one after the other.
pub open spec fn lines_of_all(nodes: Seq<Node>, ids: Seq<NodeId>, level: nat, depth: nat) -> Seq<StructureLine>
    decreases depth, ids.len(),
{
    if ids.len() == 0 {
        Seq::empty()
    } else {
        lines_of_all(nodes, ids.drop_last(), level, depth) + lines_at(nodes, ids.last(), level, depth)
    }
}

/// The structure of the subtree at `id` of a tree.
pub open spec fn structure_of(nodes: Seq<Node>, id: NodeId) -> Seq<StructureLine> {
    lines_at(nodes, id, 0, nodes[id as int].finite_depth(nodes) + 1)
}

impl LoopTree {
    fn append_lines(&self, id: NodeId, level: usize, Ghost(depth): Ghost<nat>, out: &mut Vec<StructureLine>)
        requires
            bounded(self@, id, depth),
            level <= old(out)@.len(),
        ensures
            final(out)@ == old(out)@ + lines_at(self@, id, level as nat, depth),
        decreases depth, 0nat,
    {
        let node = self.node(id);
        let ghost d: nat = (depth - 1) as nat;
        let ghost before = out@;
        let ghost kids = node.children();
        match &node.stmt {
            Stmt::Loop(l) => {
                out.push(StructureLine { level, kind: LineKind::Loop(id) });
                assert(out@.len() <= usize::MAX) by { assert(out@.len() == out.len()); }
                self.append_all(&l.body, level + 1, Ghost(d), out);
            },
            Stmt::Ref(_) => {
                out.push(StructureLine { level, kind: LineKind::Ref(id) });
            },
            Stmt::Block(children) => {
                out.push(StructureLine { level, kind: LineKind::Block });
                assert(out@.len() <= usize::MAX) by { assert(out@.len() == out.len()); }
                self.append_all(children, level + 1, Ghost(d), out);
            },
            Stmt::Branch(b) => {
                out.push(StructureLine { level, kind: LineKind::BranchThen });
                assert(out@.len() <= usize::MAX) by { assert(out@.len() == out.len()); }
                assert(bounded(self@, kids[0], d));
                self.append_lines(b.then_body, level + 1, Ghost(d), out);
                match b.else_body {
                    Some(e) => {
                        assert(out@.len() <= usize::MAX) by { assert(out@.len() == out.len()); }
                        out.push(StructureLine { level, kind: LineKind::Else });
                        assert(bounded(self@, kids[1], d));
                        self.append_lines(e, level + 1, Ghost(d), out);
                    },
                    None => {},
                }
            },
        }
        assert(out@ =~= before + lines_at(self@, id, level as nat, depth));
    }

    fn append_all(&self, ids: &Vec<NodeId>, level: usize, Ghost(depth): Ghost<nat>, out: &mut Vec<StructureLine>)
        requires
            forall|i: int| 0 <= i < ids@.len() ==> bounded(self@, #[trigger] ids@[i], depth),
            level <= old(out)@.len(),
        ensures
            final(out)@ == old(out)@ + lines_of_all(self@, ids@, level as nat, depth),
        decreases depth, ids@.len(),
    {
        let mut i: usize = 0;
        while i < ids.len()
            invariant
                i <= ids@.len(),
                forall|k: int| 0 <= k < ids@.len() ==> bounded(self@, #[trigger] ids@[k], depth),
                level <= old(out)@.len() <= out@.len(),
                out@ == old(out)@ + lines_of_all(self@, ids@.take(i as int), level as nat, depth),
            decreases ids@.len() - i,
        {
            assert(ids@.take(i + 1).drop_last() =~= ids@.take(i as int));
            assert(bounded(self@, ids@[i as int], depth));
            self.append_lines(ids[i], level, Ghost(depth), out);
            assert(out@ =~= old(out)@ + lines_of_all(self@, ids@.take(i + 1), level as nat, depth));
            i = i + 1;
        }
        assert(ids@.take(ids@.len() as int) =~= ids@);
    }

    /// The lines that show the subtree at `id`, from `id` itself at level 0
    /// down; `Node::print_structure` of the tree's users prints them.
    pub fn structure(&self, id: NodeId) -> (lines: Vec<StructureLine>)
        requires
            id < self@.len(),
            self@[id as int].is_finite_in(self@),
        ensures
            lines@ == structure_of(self@, id),
    {
        let mut lines: Vec<StructureLine> = Vec::new();
        let ghost d: nat = self@[id as int].finite_depth(self@);
        assert(node_bounded(self@, self@[id as int], d));
        self.append_lines(id, 0, Ghost(d + 1), &mut lines);
        assert(lines@ =~= structure_of(self@, id));
        lines
    }
}

/// The loop variable that an array subscript names when it is shown: a
/// subscript evaluated at the loop indices `[0, 1, 2, 3]` that yields `val`
/// follows the loop variable `i`, `j`, `k` or `l`; larger values name none.
pub fn index_letter(val: usize) -> (c: Option<char>)
    ensures
        c == (if val == 0 {
            Some('i')
        } else if val == 1 {
            Some('j')
        } else if val == 2 {
            Some('k')
        } else if val == 3 {
            Some('l')
        } else {
            None::<char>
        }),
{
    match val {
        0 => Some('i'),
        1 => Some('j'),
        2 => Some('k'),
        3 => Some('l'),
        _ => None,
    }
}

} // verus!
