//! The loop tree: its nodes, their statements, and the arena that holds them.

use vstd::prelude::*;
use crate::bound::{DynamicBound, LoopBound};
use crate::callbacks::{
    AryAcc, ArrayAccess, BelowUpperBound, BranchCondition,
    DynamicBoundFunction, LoopStep, LoopTest, StepByOne,
};

verus! {

/// The position of a node in its [`LoopTree`].
pub type NodeId = usize;

/// Each loop and statement is a node in a loop tree.
pub struct Node {
    pub stmt: Stmt,
    /// The loop this node was last attached to, if any.
    pub parent: Option<NodeId>,
}

/// What a node is: a loop, an array reference, a block of statements, or a branch.
pub enum Stmt {
    Loop(LoopStmt),
    Ref(AryRef),
    Block(Vec<NodeId>),
    Branch(BranchStmt),
}

/// A reference to an array element.
pub struct AryRef {
    pub name: String,
    /// array dimensions, e.g. [5,5]
    pub dim: Vec<usize>,
    pub indices: Vec<String>,
    /// Subscript expressions: one function for each data dimension.
    /// It takes the indices of its loop nest and returns indices of the array access.
    pub sub: Box<dyn ArrayAccess>,
    pub base: Option<usize>,
    pub ref_id: Option<usize>,
    pub ri: Vec<String>,
}

/// A two-way branch; its arms are nodes of the same tree.
pub struct BranchStmt {
    pub cond: Box<dyn BranchCondition>,
    pub then_body: NodeId,
    pub else_body: Option<NodeId>,
}

/// A loop: its induction variable, bounds, test and step, and its body.
pub struct LoopStmt {
    pub iv: String,
    pub lb: LoopBound,
    pub ub: LoopBound,
    pub test: Box<dyn LoopTest>,
    pub step: Box<dyn LoopStep>,
    pub body: Vec<NodeId>,
    pub rank: i32,
}

impl Stmt {
    /// The nodes directly below a statement, in order.
    pub open spec fn children(self) -> Seq<NodeId> {
        match self {
            Stmt::Loop(l) => l.body@,
            Stmt::Ref(_) => Seq::empty(),
            Stmt::Block(v) => v@,
            Stmt::Branch(b) => match b.else_body {
                Some(e) => seq![b.then_body, e],
                None => seq![b.then_body],
            },
        }
    }
}

impl Node {
    /// The nodes directly below this one, in order.
    pub open spec fn children(self) -> Seq<NodeId> {
        self.stmt.children()
    }
}

/// Every chain of children that starts at `id` stays among `nodes` and
/// holds fewer than `depth` nodes.
pub open spec fn bounded(nodes: Seq<Node>, id: NodeId, depth: nat) -> bool
    decreases depth, 0nat,
{
    &&& depth > 0
    &&& id < nodes.len()
    &&& node_bounded(nodes, nodes[id as int], (depth - 1) as nat)
}

/// Every child of `node` is `bounded` by `depth`.
pub open spec fn node_bounded(nodes: Seq<Node>, node: Node, depth: nat) -> bool
    decreases depth, node.children().len() + 1,
{
    forall|i: int| 0 <= i < node.children().len() ==> bounded(nodes, #[trigger] node.children()[i], depth)
}

/// The number of nodes below and including `id`, each counted once for each
/// chain of children that reaches it, looking no deeper than `depth`.
pub open spec fn subtree_size(nodes: Seq<Node>, id: NodeId, depth: nat) -> nat
    decreases depth, 0nat,
{
    if depth == 0 || id >= nodes.len() {
        0
    } else {
        node_size(nodes, nodes[id as int], (depth - 1) as nat)
    }
}

/// `node` itself and the sizes of its children.
pub open spec fn node_size(nodes: Seq<Node>, node: Node, depth: nat) -> nat
    decreases depth, node.children().len() + 1,
{
    1 + sum_sizes(nodes, node.children(), depth)
}

/// The sum of the sizes of the subtrees at `ids`.
pub open spec fn sum_sizes(nodes: Seq<Node>, ids: Seq<NodeId>, depth: nat) -> nat
    decreases depth, ids.len(),
{
    if ids.len() == 0 {
        0
    } else {
        sum_sizes(nodes, ids.drop_last(), depth) + subtree_size(nodes, ids.last(), depth)
    }
}

impl Node {
    /// No chain of children below this node comes back to a node it passed,
    /// and every node on such a chain is among `nodes`.
    pub open spec fn is_finite_in(self, nodes: Seq<Node>) -> bool {
        exists|depth: nat| node_bounded(nodes, self, depth)
    }

    /// A depth that bounds the chains below a finite node.
    pub open spec fn finite_depth(self, nodes: Seq<Node>) -> nat {
        choose|depth: nat| node_bounded(nodes, self, depth)
    }

    /// The number of nodes in the tree below and including this node, each
    /// counted once for every chain of children that reaches it.
    pub open spec fn count_in(self, nodes: Seq<Node>) -> nat {
        node_size(nodes, self, self.finite_depth(nodes))
    }
}

/// The sizes summed over a prefix of `ids` never exceed the sum over all of `ids`.
proof fn lemma_sum_sizes_take(nodes: Seq<Node>, ids: Seq<NodeId>, j: int, depth: nat)
    requires
        0 <= j <= ids.len(),
    ensures
        sum_sizes(nodes, ids.take(j), depth) <= sum_sizes(nodes, ids, depth),
    decreases ids.len() - j,
{
    if j < ids.len() {
        lemma_sum_sizes_take(nodes, ids, j + 1, depth);
        assert(ids.take(j + 1).drop_last() =~= ids.take(j));
    } else {
        assert(ids.take(j) =~= ids);
    }
}

/// The nodes of a loop tree.  A node refers to other nodes by their
/// position here; one node may sit below several others.
pub struct LoopTree {
    nodes: Vec<Node>,
}

impl View for LoopTree {
    type V = Seq<Node>;

    closed spec fn view(&self) -> Seq<Node> {
        self.nodes@
    }
}

impl LoopTree {
    /// A tree with no nodes.
    pub fn new() -> (tree: LoopTree)
        ensures
            tree@ == Seq::<Node>::empty(),
    {
        LoopTree { nodes: Vec::new() }
    }

    /// The number of nodes.
    pub fn len(&self) -> (n: usize)
        ensures
            n == self@.len(),
    {
        self.nodes.len()
    }

    /// The node at `id`.
    pub fn node(&self, id: NodeId) -> (node: &Node)
        requires
            id < self@.len(),
        ensures
            *node == self@[id as int],
    {
        &self.nodes[id]
    }

    /// The node at `id`, to change in place.
    pub fn node_mut(&mut self, id: NodeId) -> (node: &mut Node)
        requires
            id < old(self)@.len(),
        ensures
            *node == old(self)@[id as int],
            final(self)@ == old(self)@.update(id as int, *final(node)),
    {
        &mut self.nodes[id]
    }

    /// The loop that the node at `id` was last attached to, if any.
    pub fn parent(&self, id: NodeId) -> (p: Option<NodeId>)
        requires
            id < self@.len(),
        ensures
            p == self@[id as int].parent,
    {
        self.nodes[id].parent
    }

    /// Whether every chain of children that starts at `id` stays in the tree
    /// and holds fewer than `depth` nodes; when it does, `node_count` and
    /// `structure` may be called on the node at `id`.
    pub fn is_bounded(&self, id: NodeId, depth: usize) -> (r: bool)
        ensures
            r == bounded(self@, id, depth as nat),
        decreases depth, 1nat,
    {
        if depth == 0 || id >= self.nodes.len() {
            return false;
        }
        let node = &self.nodes[id];
        let ghost kids = node.children();
        match &node.stmt {
            Stmt::Loop(l) => self.all_bounded(&l.body, depth - 1),
            Stmt::Ref(_) => true,
            Stmt::Block(children) => self.all_bounded(children, depth - 1),
            Stmt::Branch(b) => {
                let t: bool = self.is_bounded(b.then_body, depth - 1);
                let e: bool = match b.else_body {
                    Some(e) => self.is_bounded(e, depth - 1),
                    None => true,
                };
                assert(t && e <==> forall|i: int| 0 <= i < kids.len()
                    ==> bounded(self@, #[trigger] kids[i], (depth - 1) as nat)) by {
                    if t && e {
                        assert forall|i: int| 0 <= i < kids.len()
                            implies bounded(self@, #[trigger] kids[i], (depth - 1) as nat) by {
                            if i == 1 {
                                assert(kids[1] == b.else_body.unwrap());
                            }
                        }
                    } else if !t {
                        assert(kids[0] == b.then_body);
                    } else {
                        assert(kids[1] == b.else_body.unwrap());
                    }
                }
                t && e
            },
        }
    }

    /// Whether every node at `ids` is `bounded` by `depth`.
    fn all_bounded(&self, ids: &Vec<NodeId>, depth: usize) -> (r: bool)
        ensures
            r == forall|i: int| 0 <= i < ids@.len() ==> bounded(self@, #[trigger] ids@[i], depth as nat),
        decreases depth, 2nat,
    {
        let mut i: usize = 0;
        while i < ids.len()
            invariant
                i <= ids@.len(),
                forall|k: int| 0 <= k < i ==> bounded(self@, #[trigger] ids@[k], depth as nat),
            decreases ids@.len() - i,
        {
            if !self.is_bounded(ids[i], depth) {
                return false;
            }
            i = i + 1;
        }
        true
    }

    fn count_ids(&self, ids: &Vec<NodeId>, Ghost(depth): Ghost<nat>) -> (n: u32)
        requires
            forall|i: int| 0 <= i < ids@.len() ==> bounded(self@, #[trigger] ids@[i], depth),
            sum_sizes(self@, ids@, depth) <= u32::MAX,
        ensures
            n == sum_sizes(self@, ids@, depth),
        decreases depth, ids@.len(),
    {
        let mut total: u32 = 0;
        let mut i: usize = 0;
        while i < ids.len()
            invariant
                i <= ids@.len(),
                forall|k: int| 0 <= k < ids@.len() ==> bounded(self@, #[trigger] ids@[k], depth),
                sum_sizes(self@, ids@, depth) <= u32::MAX,
                total == sum_sizes(self@, ids@.take(i as int), depth),
            decreases ids@.len() - i,
        {
            proof {
                lemma_sum_sizes_take(self@, ids@, i + 1, depth);
                assert(ids@.take(i + 1).drop_last() =~= ids@.take(i as int));
            }
            let k: NodeId = ids[i];
            assert(bounded(self@, ids@[i as int], depth));
            assert(sum_sizes(self@, ids@.take(i + 1), depth) == sum_sizes(self@, ids@.take(i as int), depth)
                + subtree_size(self@, k, depth));
            let c: u32 = self.nodes[k].count_within(self, Ghost((depth - 1) as nat));
            total = total + c;
            i = i + 1;
        }
        assert(ids@.take(ids@.len() as int) =~= ids@);
        total
    }
}

impl Node {
    fn count_within(&self, tree: &LoopTree, Ghost(depth): Ghost<nat>) -> (n: u32)
        requires
            node_bounded(tree@, *self, depth),
            node_size(tree@, *self, depth) <= u32::MAX,
        ensures
            n == node_size(tree@, *self, depth),
        decreases depth, self.children().len() + 1,
    {
        match &self.stmt {
            Stmt::Loop(a_loop) => 1 + tree.count_ids(&a_loop.body, Ghost(depth)),
            Stmt::Ref(_) => 1,
            Stmt::Block(children) => 1 + tree.count_ids(children, Ghost(depth)),
            Stmt::Branch(b) => {
                let ghost kids = self.children();
                assert(bounded(tree@, kids[0], depth));
                assert(seq![b.then_body].drop_last() =~= Seq::<NodeId>::empty());
                assert(sum_sizes(tree@, Seq::<NodeId>::empty(), depth) == 0);
                assert(sum_sizes(tree@, seq![b.then_body], depth) == subtree_size(tree@, b.then_body, depth));
                let t: u32 = tree.nodes[b.then_body].count_within(tree, Ghost((depth - 1) as nat));
                let e: u32 = match b.else_body {
                    Some(e) => {
                        assert(bounded(tree@, kids[1], depth));
                        assert(kids.drop_last() =~= seq![b.then_body]);
                        assert(sum_sizes(tree@, kids, depth) == subtree_size(tree@, b.then_body, depth)
                            + subtree_size(tree@, e, depth));
                        tree.nodes[e].count_within(tree, Ghost((depth - 1) as nat))
                    },
                    None => {
                        assert(kids =~= seq![b.then_body]);
                        0
                    },
                };
                t + e + 1
            },
        }
    }

    /// Get the count of nodes in the loop tree below and including this node;
    /// a node reached along several chains of children counts once for each.
    pub fn node_count(&self, tree: &LoopTree) -> (n: u32)
        requires
            self.is_finite_in(tree@),
            self.count_in(tree@) <= u32::MAX,
        ensures
            n == self.count_in(tree@),
    {
        self.count_within(tree, Ghost(self.finite_depth(tree@)))
    }
}


/// `after` is `before` with one more node at the end, attached to no loop.
pub open spec fn appended(before: Seq<Node>, after: Seq<Node>) -> bool {
    &&& after.len() == before.len() + 1
    &&& after.drop_last() == before
    &&& after.last().parent is None
}

/// `after` is the statement `before` with `stmt` appended to its body when it
/// is a loop, and `before` itself otherwise.
pub open spec fn body_extended(before: Stmt, after: Stmt, stmt: NodeId) -> bool {
    match before {
        Stmt::Loop(l) => after matches Stmt::Loop(l2) && {
            &&& l2.body@ == l.body@.push(stmt)
            &&& l2.iv == l.iv
            &&& l2.lb == l.lb
            &&& l2.ub == l.ub
            &&& l2.test == l.test
            &&& l2.step == l.step
            &&& l2.rank == l.rank
        },
        _ => after == before,
    }
}

/// `after` is `before` once `stmt` has been appended to the body of the loop
/// `lup` and attached to it.
pub open spec fn extended(before: Seq<Node>, after: Seq<Node>, lup: NodeId, stmt: NodeId) -> bool {
    &&& after.len() == before.len()
    &&& forall|i: int| 0 <= i < before.len() && i != lup && i != stmt ==> after[i] == before[i]
    &&& body_extended(before[lup as int].stmt, after[lup as int].stmt, stmt)
    &&& after[stmt as int].parent == Some(lup)
    &&& lup != stmt ==> after[lup as int].parent == before[lup as int].parent
    &&& lup != stmt ==> after[stmt as int].stmt == before[stmt as int].stmt
}

impl Node {
    /// Create a new node with a given statement.
    pub fn new_node(tree: &mut LoopTree, a_stmt: Stmt) -> (id: NodeId)
        ensures
            id == old(tree)@.len(),
            appended(old(tree)@, final(tree)@),
            final(tree)@.last().stmt == a_stmt,
    {
        let id: NodeId = tree.nodes.len();
        tree.nodes.push(Node { stmt: a_stmt, parent: None });
        assert(tree.nodes@.drop_last() =~= old(tree).nodes@);
        id
    }

    /// Create a new array reference to `ary_nm` of dimensions `ary_dim`, whose
    /// subscripts `ary_sub` computes.
    pub fn new_ref<F>(tree: &mut LoopTree, ary_nm: &str, ary_dim: Vec<usize>, ary_sub: F) -> (id: NodeId)
        where
            F: Fn(&[i32]) -> AryAcc + 'static,
        ensures
            id == old(tree)@.len(),
            appended(old(tree)@, final(tree)@),
            final(tree)@.last().stmt matches Stmt::Ref(r) && {
                &&& r.name@ == ary_nm@
                &&& r.dim == ary_dim
                &&& r.indices@ == Seq::<String>::empty()
                &&& r == (AryRef {
                    name: r.name,
                    dim: r.dim,
                    indices: r.indices,
                    sub: Box::new(ary_sub),
                    base: None,
                    ref_id: None,
                    ri: r.ri,
                })
                &&& r.base is None
                &&& r.ref_id is None
                &&& r.ri@ == Seq::<String>::empty()
            },
    {
        let ref_stmt = AryRef {
            name: ary_nm.to_owned(),
            dim: ary_dim,
            indices: Vec::new(),
            sub: Box::new(ary_sub),
            base: None,
            ref_id: None,
            ri: Vec::new(),
        };
        Node::new_node(tree, Stmt::Ref(ref_stmt))
    }

    /// Create a new loop over `ivar` from `lb` to `ub`, with an empty body.
    pub fn new_loop<F, G>(tree: &mut LoopTree, ivar: &str, lb: LoopBound, ub: LoopBound, test: F, step: G) -> (id: NodeId)
        where
            F: Fn(i32, i32) -> bool + 'static,
            G: Fn(i32) -> i32 + 'static,
        ensures
            id == old(tree)@.len(),
            appended(old(tree)@, final(tree)@),
            final(tree)@.last().stmt matches Stmt::Loop(l) && {
                &&& l.iv@ == ivar@
                &&& l.lb == lb
                &&& l.ub == ub
                &&& l == (LoopStmt {
                    iv: l.iv,
                    lb: l.lb,
                    ub: l.ub,
                    test: Box::new(test),
                    step: Box::new(step),
                    body: l.body,
                    rank: l.rank,
                })
                &&& l.body@ == Seq::<NodeId>::empty()
                &&& l.rank == 0
            },
    {
        let loop_stmt = LoopStmt {
            iv: ivar.to_owned(),
            lb,
            ub,
            test: Box::new(test),
            step: Box::new(step),
            body: Vec::new(),
            rank: 0,
        };
        Node::new_node(tree, Stmt::Loop(loop_stmt))
    }

    /// A loop from `lb` while below `ub`, by steps of one.
    fn new_default_loop(tree: &mut LoopTree, ivar: &str, lb: LoopBound, ub: LoopBound) -> (id: NodeId)
        ensures
            id == old(tree)@.len(),
            appended(old(tree)@, final(tree)@),
            final(tree)@.last().stmt matches Stmt::Loop(l) && {
                &&& l.iv@ == ivar@
                &&& l.lb == lb
                &&& l.ub == ub
                &&& l == (LoopStmt {
                    iv: l.iv,
                    lb: l.lb,
                    ub: l.ub,
                    test: Box::new(BelowUpperBound),
                    step: Box::new(StepByOne),
                    body: l.body,
                    rank: l.rank,
                })
                &&& l.body@ == Seq::<NodeId>::empty()
                &&& l.rank == 0
            },
    {
        let loop_stmt = LoopStmt {
            iv: ivar.to_owned(),
            lb,
            ub,
            test: Box::new(BelowUpperBound),
            step: Box::new(StepByOne),
            body: Vec::new(),
            rank: 0,
        };
        Node::new_node(tree, Stmt::Loop(loop_stmt))
    }

    /// Create a new loop over `ivar` from `low` while below `high`, by steps of one.
    pub fn new_single_loop(tree: &mut LoopTree, ivar: &str, low: i32, high: i32) -> (id: NodeId)
        ensures
            id == old(tree)@.len(),
            appended(old(tree)@, final(tree)@),
            final(tree)@.last().stmt matches Stmt::Loop(l) && {
                &&& l.iv@ == ivar@
                &&& l.lb == LoopBound::Fixed(low)
                &&& l.ub == LoopBound::Fixed(high)
                &&& l == (LoopStmt {
                    iv: l.iv,
                    lb: l.lb,
                    ub: l.ub,
                    test: Box::new(BelowUpperBound),
                    step: Box::new(StepByOne),
                    body: l.body,
                    rank: l.rank,
                })
                &&& l.body@ == Seq::<NodeId>::empty()
                &&& l.rank == 0
            },
    {
        Node::new_default_loop(tree, ivar, LoopBound::Fixed(low), LoopBound::Fixed(high))
    }

    /// Create a new loop over `ivar` from `low` while below the dynamic bound
    /// `ub`, by steps of one.
    pub fn new_single_loop_dyn_ub(
        tree: &mut LoopTree,
        ivar: &str,
        low: i32,
        ub: Box<dyn DynamicBoundFunction>,
    ) -> (id: NodeId)
        ensures
            id == old(tree)@.len(),
            appended(old(tree)@, final(tree)@),
            final(tree)@.last().stmt matches Stmt::Loop(l) && {
                &&& l.iv@ == ivar@
                &&& l.lb == LoopBound::Fixed(low)
                &&& l.ub == LoopBound::Dynamic(DynamicBound::Function(ub))
                &&& l == (LoopStmt {
                    iv: l.iv,
                    lb: l.lb,
                    ub: l.ub,
                    test: Box::new(BelowUpperBound),
                    step: Box::new(StepByOne),
                    body: l.body,
                    rank: l.rank,
                })
                &&& l.body@ == Seq::<NodeId>::empty()
                &&& l.rank == 0
            },
    {
        Node::new_default_loop(tree, ivar, LoopBound::Fixed(low), LoopBound::Dynamic(DynamicBound::Function(ub)))
    }

    /// Extend the body of the loop node `lup` with the node `stmt`, and make
    /// `lup` the parent of `stmt`.  When `lup` is not a loop, only the parent
    /// of `stmt` changes.
    pub fn extend_loop_body(tree: &mut LoopTree, lup: NodeId, stmt: NodeId)
        requires
            lup < old(tree)@.len(),
            stmt < old(tree)@.len(),
        ensures
            extended(old(tree)@, final(tree)@, lup, stmt),
    {
        let _ = tree.nodes[lup].loop_only_mut(|lp: &mut LoopStmt|
            ensures
                final(lp).body@ == old(lp).body@.push(stmt),
                final(lp).iv == old(lp).iv,
                final(lp).lb == old(lp).lb,
                final(lp).ub == old(lp).ub,
                final(lp).test == old(lp).test,
                final(lp).step == old(lp).step,
                final(lp).rank == old(lp).rank,
            { lp.body.push(stmt) });
        // officiating the parent-child relationship
        tree.nodes[stmt].parent = Some(lup);
    }
}


impl Node {
    /// The rank of a loop node; `None` for any other node.
    pub fn rank(&self) -> (r: Option<i32>)
        ensures
            r == (match self.stmt {
                Stmt::Loop(l) => Some(l.rank),
                _ => None,
            }),
    {
        self.loop_only(|lp: &LoopStmt| -> (rank: i32)
            ensures
                rank == lp.rank,
            { lp.rank })
    }

    /// Applies `f` to the loop of a loop node; `None` for any other node.
    pub fn loop_only<U, F>(&self, f: F) -> (r: Option<U>)
        where
            F: FnOnce(&LoopStmt) -> U,
        requires
            self.stmt matches Stmt::Loop(l) ==> f.requires((&l,)),
        ensures
            match self.stmt {
                Stmt::Loop(l) => r matches Some(u) && f.ensures((&l,), u),
                _ => r is None,
            },
    {
        match &self.stmt {
            Stmt::Loop(aloop) => Some(f(aloop)),
            _ => None,
        }
    }

    /// Applies `f`, which may change the loop, to the loop of a loop node;
    /// `None`, with the node unchanged, for any other node.
    pub fn loop_only_mut<U, F>(&mut self, f: F) -> (r: Option<U>)
        where
            F: FnOnce(&mut LoopStmt) -> U,
        requires
            old(self).stmt matches Stmt::Loop(l) ==> forall|m: &mut LoopStmt| *m == l ==> f.requires((m,)),
        ensures
            match old(self).stmt {
                Stmt::Loop(l) => r matches Some(u) && exists|m: &mut LoopStmt| {
                    &&& *m == l
                    &&& f.ensures((m,), u)
                    &&& final(self).stmt == Stmt::Loop(*final(m))
                },
                _ => r is None && final(self).stmt == old(self).stmt,
            },
            final(self).parent == old(self).parent,
    {
        match &mut self.stmt {
            Stmt::Loop(aloop) => Some(f(aloop)),
            _ => None,
        }
    }

    /// Applies `f` to the array reference of a reference node; `None` for any other node.
    pub fn ref_only<U, F>(&self, f: F) -> (r: Option<U>)
        where
            F: FnOnce(&AryRef) -> U,
        requires
            self.stmt matches Stmt::Ref(a) ==> f.requires((&a,)),
        ensures
            match self.stmt {
                Stmt::Ref(a) => r matches Some(u) && f.ensures((&a,), u),
                _ => r is None,
            },
    {
        match &self.stmt {
            Stmt::Ref(a_ref) => Some(f(a_ref)),
            _ => None,
        }
    }

    /// Applies `f`, which borrows from the array reference, to the array
    /// reference of a reference node; `None` for any other node.
    pub fn ref_only_ref<'a, U, F>(&'a self, f: F) -> (r: Option<&'a U>)
        where
            F: FnOnce(&'a AryRef) -> &'a U,
        requires
            self.stmt matches Stmt::Ref(a) ==> f.requires((&a,)),
        ensures
            match self.stmt {
                Stmt::Ref(a) => r matches Some(u) && f.ensures((&a,), u),
                _ => r is None,
            },
    {
        match &self.stmt {
            Stmt::Ref(a_ref) => Some(f(a_ref)),
            _ => None,
        }
    }

    /// Applies `f`, which borrows mutably from the array reference, to the
    /// array reference of a reference node; `None`, with the node unchanged,
    /// for any other node.
    pub fn ref_only_mut_ref<'a, U, F>(&'a mut self, f: F) -> (r: Option<&'a mut U>)
        where
            F: FnOnce(&'a mut AryRef) -> &'a mut U,
        requires
            old(self).stmt matches Stmt::Ref(a) ==> forall|m: &mut AryRef| *m == a ==> f.requires((m,)),
        ensures
            match old(self).stmt {
                Stmt::Ref(a) => r matches Some(u) && exists|m: &mut AryRef| {
                    &&& *m == a
                    &&& f.ensures((m,), u)
                    &&& final(self).stmt == Stmt::Ref(*final(m))
                },
                _ => r is None && final(self).stmt == old(self).stmt,
            },
            final(self).parent == old(self).parent,
    {
        match &mut self.stmt {
            Stmt::Ref(a_ref) => Some(f(a_ref)),
            _ => None,
        }
    }

    /// The lower bound of a loop node; `None` for any other node.  The lower
    /// bound of a loop must be fixed.
    pub fn get_lb(&self) -> (r: Option<i32>)
        requires
            self.stmt matches Stmt::Loop(l) ==> l.lb is Fixed,
        ensures
            r == (match self.stmt {
                Stmt::Loop(l) => Some(l.lb->Fixed_0),
                _ => None,
            }),
    {
        self.loop_only(|lp: &LoopStmt| -> (lowerbound: i32)
            requires
                lp.lb is Fixed,
            ensures
                lowerbound == lp.lb->Fixed_0,
            {
                match &lp.lb {
                    LoopBound::Fixed(lowerbound) => *lowerbound,
                    _ => vstd::pervasive::unreached(),
                }
            })
    }
}

} // verus!
