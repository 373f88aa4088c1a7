use dace::ast::{AryRef, BranchStmt, LoopStmt, LoopTree, Node, Stmt};
use dace::bound::{BoundOp, DynamicBound, LoopBound};
use dace::callbacks::{
    ArrayAccess, BelowUpperBound, BranchCondition, DynamicBoundFunction, LoopStep, LoopTest, StepByOne,
};
use dace::structure::{index_letter, LineKind, StructureLine};

fn fixed(b: &LoopBound) -> Option<i32> {
    match b {
        LoopBound::Fixed(x) => Some(*x),
        _ => None,
    }
}

#[test]
fn bound_op_apply_values() {
    assert_eq!(BoundOp::Add.apply(3, 4), Some(7));
    assert_eq!(BoundOp::Sub.apply(3, 4), Some(-1));
    assert_eq!(BoundOp::Mul.apply(-3, 4), Some(-12));
    assert_eq!(BoundOp::Div.apply(7, -2), Some(-3));
    assert_eq!(BoundOp::Div.apply(-7, 2), Some(-3));
}

#[test]
fn bound_op_apply_failures() {
    assert_eq!(BoundOp::Add.apply(i32::MAX, 1), None);
    assert_eq!(BoundOp::Sub.apply(i32::MIN, 1), None);
    assert_eq!(BoundOp::Mul.apply(i32::MAX, 2), None);
    assert_eq!(BoundOp::Div.apply(5, 0), None);
    assert_eq!(BoundOp::Div.apply(i32::MIN, -1), None);
    assert_eq!(BoundOp::Add.apply_opt(None, Some(1)), None);
    assert_eq!(BoundOp::Add.apply_opt(Some(2), Some(1)), Some(3));
}

#[test]
fn fixed_bounds_combine_to_fixed() {
    assert_eq!(fixed(&(LoopBound::Fixed(3) + LoopBound::Fixed(4))), Some(7));
    assert_eq!(fixed(&(LoopBound::Fixed(3) - LoopBound::Fixed(4))), Some(-1));
    assert_eq!(fixed(&(LoopBound::Fixed(3) * LoopBound::Fixed(4))), Some(12));
    assert_eq!(fixed(&(LoopBound::Fixed(13) / LoopBound::Fixed(4))), Some(3));
}

#[test]
fn dynamic_bounds_combine_when_evaluated() {
    let d: LoopBound = (|iv: &[i32]| 100 - iv[0]).into();
    let sum = LoopBound::Fixed(1) + d;
    match &sum {
        LoopBound::Dynamic(DynamicBound::Apply(BoundOp::Add, lhs, inner)) => {
            assert_eq!(lhs.eval(&[10]), Some(1));
            assert_eq!(inner.eval(&[10]), Some(90));
        },
        _ => panic!("expected a dynamic bound with the constant on the left"),
    }
    match sum {
        LoopBound::Dynamic(db) => assert_eq!(db.eval(&[10]), Some(91)),
        _ => panic!("expected a dynamic bound"),
    }

    let d: LoopBound = (|iv: &[i32]| iv[0] * 3).into();
    match d / LoopBound::Fixed(2) {
        LoopBound::Dynamic(db) => assert_eq!(db.eval(&[5]), Some(7)),
        _ => panic!("expected a dynamic bound"),
    }

    let d1: LoopBound = (|iv: &[i32]| iv[0]).into();
    let d2: LoopBound = (|iv: &[i32]| iv[1]).into();
    match d1 * d2 {
        LoopBound::Dynamic(db) => assert_eq!(db.eval(&[6, 7]), Some(42)),
        _ => panic!("expected a dynamic bound"),
    }
}

#[test]
fn dynamic_bound_evaluation_failures() {
    let d: LoopBound = (|_iv: &[i32]| 0).into();
    match LoopBound::Fixed(1) / d {
        LoopBound::Dynamic(db) => assert_eq!(db.eval(&[]), None),
        _ => panic!("expected a dynamic bound"),
    }
    let d: LoopBound = (|_iv: &[i32]| i32::MAX).into();
    match d + LoopBound::Fixed(1) {
        LoopBound::Dynamic(db) => assert_eq!(db.eval(&[]), None),
        _ => panic!("expected a dynamic bound"),
    }
}

#[test]
fn bounds_from_values() {
    assert_eq!(fixed(&LoopBound::from(5)), Some(5));
    match LoopBound::from((vec![1, 2], 3)) {
        LoopBound::Affine { a, b } => {
            assert_eq!(a, vec![1, 2]);
            assert_eq!(b, 3);
        },
        _ => panic!("expected an affine bound"),
    }
    match LoopBound::from(|iv: &[i32]| iv[0] + 1) {
        LoopBound::Dynamic(DynamicBound::Function(f)) => assert_eq!(f.bound(&[4]), 5),
        _ => panic!("expected a function bound"),
    }
}

#[test]
fn callbacks_call_the_closures() {
    let sub: Box<dyn ArrayAccess> = Box::new(|iv: &[i32]| vec![iv[1] as usize, iv[0] as usize]);
    assert_eq!(sub.access(&[3, 4]), vec![4, 3]);
    let cond: Box<dyn BranchCondition> = Box::new(|iv: &[i32]| iv[0] > 2);
    assert!(cond.holds(&[3]));
    assert!(!cond.holds(&[2]));
    let test: Box<dyn LoopTest> = Box::new(|i: i32, ub: i32| i <= ub);
    assert!(test.test(5, 5));
    let step: Box<dyn LoopStep> = Box::new(|i: i32| i + 3);
    assert_eq!(step.step(4), 7);
    let bound: Box<dyn DynamicBoundFunction> = Box::new(|iv: &[i32]| iv[0] - 1);
    assert_eq!(bound.bound(&[9]), 8);
}

#[test]
fn default_test_and_step() {
    assert!(BelowUpperBound.test(3, 4));
    assert!(!BelowUpperBound.test(4, 4));
    assert_eq!(StepByOne.step(4), 5);
    assert_eq!(StepByOne.step(-1), 0);
}

#[test]
fn single_loop_getters() {
    let mut tree = LoopTree::new();
    let l = Node::new_single_loop(&mut tree, "i", 2, 10);
    let node = tree.node(l);
    assert_eq!(node.rank(), Some(0));
    assert_eq!(node.get_lb(), Some(2));
    assert_eq!(node.loop_only(|lp| lp.iv.clone()), Some("i".to_string()));
    assert_eq!(node.loop_only(|lp| fixed(&lp.ub)), Some(Some(10)));
    assert_eq!(node.loop_only(|lp| lp.test.test(9, 10)), Some(true));
    assert_eq!(node.loop_only(|lp| lp.step.step(9)), Some(10));
    assert_eq!(node.ref_only(|r| r.name.clone()), None);
    assert_eq!(node.node_count(&tree), 1);
    assert_eq!(tree.parent(l), None);
}

#[test]
fn ref_getters() {
    let mut tree = LoopTree::new();
    let r = Node::new_ref(&mut tree, "A", vec![4, 5], |iv| vec![iv[0] as usize, 0]);
    let node = tree.node(r);
    assert_eq!(node.rank(), None);
    assert_eq!(node.get_lb(), None);
    assert_eq!(node.ref_only(|a| a.dim.clone()), Some(vec![4, 5]));
    assert_eq!(node.ref_only(|a| a.sub.access(&[3])), Some(vec![3, 0]));
    assert_eq!(node.ref_only_ref(|a| &a.name), Some(&"A".to_string()));
    assert_eq!(node.ref_only(|a| (a.base, a.ref_id, a.indices.len(), a.ri.len())), Some((None, None, 0, 0)));
    assert_eq!(node.node_count(&tree), 1);
}

#[test]
fn mutable_getters_change_the_node() {
    let mut tree = LoopTree::new();
    let l = Node::new_single_loop(&mut tree, "i", 0, 10);
    let r = Node::new_ref(&mut tree, "A", vec![4], |iv| vec![iv[0] as usize]);
    assert_eq!(tree.node_mut(l).loop_only_mut(|lp| lp.rank = 3), Some(()));
    assert_eq!(tree.node(l).rank(), Some(3));
    assert_eq!(tree.node_mut(r).loop_only_mut(|lp| lp.rank = 3), None);
    if let Some(base) = tree.node_mut(r).ref_only_mut_ref(|a| &mut a.base) {
        *base = Some(7);
    }
    assert_eq!(tree.node(r).ref_only(|a| a.base), Some(Some(7)));
    assert!(tree.node_mut(l).ref_only_mut_ref(|a| &mut a.base).is_none());
}

#[test]
fn extend_sets_body_and_parent() {
    let mut tree = LoopTree::new();
    let r = Node::new_ref(&mut tree, "A", vec![4], |iv| vec![iv[0] as usize]);
    let l = Node::new_single_loop(&mut tree, "i", 0, 4);
    Node::extend_loop_body(&mut tree, l, r);
    assert_eq!(tree.parent(r), Some(l));
    assert_eq!(tree.parent(l), None);
    assert_eq!(tree.node(l).loop_only(|lp| lp.body.clone()), Some(vec![r]));
    assert_eq!(tree.len(), 2);
}

#[test]
fn extend_of_a_non_loop_only_sets_parent() {
    let mut tree = LoopTree::new();
    let a = Node::new_ref(&mut tree, "A", vec![4], |iv| vec![iv[0] as usize]);
    let b = Node::new_ref(&mut tree, "B", vec![4], |iv| vec![iv[0] as usize]);
    Node::extend_loop_body(&mut tree, a, b);
    assert_eq!(tree.parent(b), Some(a));
    assert_eq!(tree.node(a).node_count(&tree), 1);
    assert_eq!(tree.node(b).node_count(&tree), 1);
}

#[test]
fn extend_count_law_on_values() {
    // the count of a loop grows by the count of what is appended
    let mut tree = LoopTree::new();
    let a = Node::new_ref(&mut tree, "A", vec![4], |iv| vec![iv[0] as usize]);
    let b = Node::new_ref(&mut tree, "B", vec![4], |iv| vec![iv[0] as usize]);
    let inner = Node::new_single_loop(&mut tree, "j", 0, 4);
    Node::extend_loop_body(&mut tree, inner, a);
    Node::extend_loop_body(&mut tree, inner, b);
    let outer = Node::new_single_loop(&mut tree, "i", 0, 4);
    let before = tree.node(outer).node_count(&tree);
    let added = tree.node(inner).node_count(&tree);
    Node::extend_loop_body(&mut tree, outer, inner);
    assert_eq!(tree.node(outer).node_count(&tree), before + added);
    assert_eq!(tree.node(outer).node_count(&tree), 4);
}

#[test]
fn shared_nodes_count_once_per_path() {
    let mut tree = LoopTree::new();
    let a = Node::new_ref(&mut tree, "A", vec![4], |iv| vec![iv[0] as usize]);
    let l = Node::new_single_loop(&mut tree, "i", 0, 4);
    Node::extend_loop_body(&mut tree, l, a);
    Node::extend_loop_body(&mut tree, l, a);
    assert_eq!(tree.node(l).node_count(&tree), 3);
}

#[test]
fn block_counts_itself_and_children() {
    // a node counts one more than the counts of its children
    let mut tree = LoopTree::new();
    let a = Node::new_ref(&mut tree, "A", vec![4], |iv| vec![iv[0] as usize]);
    let b = Node::new_ref(&mut tree, "B", vec![4], |iv| vec![iv[0] as usize]);
    let l = Node::new_single_loop(&mut tree, "i", 0, 4);
    Node::extend_loop_body(&mut tree, l, b);
    let block = Node::new_node(&mut tree, Stmt::Block(vec![a, l]));
    let children = tree.node(a).node_count(&tree) + tree.node(l).node_count(&tree);
    assert_eq!(tree.node(block).node_count(&tree), 1 + children);
    assert_eq!(tree.node(block).node_count(&tree), 4);
}

#[test]
fn fresh_node_counts_one() {
    let mut tree = LoopTree::new();
    let empty = Node::new_node(&mut tree, Stmt::Block(vec![]));
    assert_eq!(tree.node(empty).node_count(&tree), 1);
    let lp = LoopStmt {
        iv: "k".to_string(),
        lb: LoopBound::Fixed(0),
        ub: LoopBound::Fixed(1),
        test: Box::new(BelowUpperBound),
        step: Box::new(StepByOne),
        body: vec![],
        rank: 2,
    };
    let k = Node::new_node(&mut tree, Stmt::Loop(lp));
    assert_eq!(tree.node(k).node_count(&tree), 1);
    assert_eq!(tree.node(k).rank(), Some(2));
    assert_eq!(k, 1);
}

#[test]
fn dynamic_upper_bound_loop() {
    let mut tree = LoopTree::new();
    let j = Node::new_single_loop_dyn_ub(&mut tree, "j", 1, Box::new(|iv: &[i32]| 10 - iv[0]));
    let node = tree.node(j);
    assert_eq!(node.get_lb(), Some(1));
    let ub = node.loop_only(|lp| match &lp.ub {
        LoopBound::Dynamic(d) => d.eval(&[3]),
        _ => None,
    });
    assert_eq!(ub, Some(Some(7)));
}

#[test]
fn structure_of_a_tree() {
    let mut tree = LoopTree::new();
    let a = Node::new_ref(&mut tree, "A", vec![4], |iv| vec![iv[0] as usize]);
    let b = Node::new_ref(&mut tree, "B", vec![4], |iv| vec![iv[0] as usize]);
    let br = Node::new_node(
        &mut tree,
        Stmt::Branch(BranchStmt { cond: Box::new(|iv: &[i32]| iv[0] == 0), then_body: a, else_body: Some(b) }),
    );
    let block = Node::new_node(&mut tree, Stmt::Block(vec![br]));
    let l = Node::new_single_loop(&mut tree, "i", 0, 4);
    Node::extend_loop_body(&mut tree, l, block);
    let lines = tree.structure(l);
    let expected = vec![
        StructureLine { level: 0, kind: LineKind::Loop(l) },
        StructureLine { level: 1, kind: LineKind::Block },
        StructureLine { level: 2, kind: LineKind::BranchThen },
        StructureLine { level: 3, kind: LineKind::Ref(a) },
        StructureLine { level: 2, kind: LineKind::Else },
        StructureLine { level: 3, kind: LineKind::Ref(b) },
    ];
    assert_eq!(lines, expected);
    assert_eq!(tree.structure(a), vec![StructureLine { level: 0, kind: LineKind::Ref(a) }]);
}

#[test]
fn struct_literal_ref_node() {
    let mut tree = LoopTree::new();
    let ar = AryRef {
        name: "Z".to_string(),
        dim: vec![2],
        indices: vec!["i".to_string()],
        sub: Box::new(|iv: &[i32]| vec![iv[0] as usize]),
        base: Some(1),
        ref_id: Some(2),
        ri: vec![],
    };
    let z = Node::new_node(&mut tree, Stmt::Ref(ar));
    assert_eq!(tree.node(z).ref_only(|a| (a.base, a.ref_id, a.indices.clone())), Some((Some(1), Some(2), vec!["i".to_string()])));
}

#[test]
fn index_letters() {
    assert_eq!(index_letter(0), Some('i'));
    assert_eq!(index_letter(1), Some('j'));
    assert_eq!(index_letter(2), Some('k'));
    assert_eq!(index_letter(3), Some('l'));
    assert_eq!(index_letter(4), None);
}

#[test]
fn structure_shows_each_counted_node_once() {
    let mut tree = LoopTree::new();
    let a = Node::new_ref(&mut tree, "A", vec![4], |iv| vec![iv[0] as usize]);
    let b = Node::new_ref(&mut tree, "B", vec![4], |iv| vec![iv[0] as usize]);
    let br = Node::new_node(
        &mut tree,
        Stmt::Branch(BranchStmt { cond: Box::new(|iv: &[i32]| iv[0] == 0), then_body: a, else_body: Some(b) }),
    );
    let l = Node::new_single_loop(&mut tree, "i", 0, 4);
    Node::extend_loop_body(&mut tree, l, br);
    Node::extend_loop_body(&mut tree, l, a);
    let lines = tree.structure(l);
    let shown = lines.iter().filter(|line| line.kind != LineKind::Else).count();
    assert_eq!(shown as u32, tree.node(l).node_count(&tree));
    assert_eq!(shown, 5);
}

#[test]
fn bounded_subtrees() {
    let mut tree = LoopTree::new();
    let a = Node::new_ref(&mut tree, "A", vec![4], |iv| vec![iv[0] as usize]);
    let inner = Node::new_single_loop(&mut tree, "j", 0, 4);
    let outer = Node::new_single_loop(&mut tree, "i", 0, 4);
    Node::extend_loop_body(&mut tree, inner, a);
    Node::extend_loop_body(&mut tree, outer, inner);
    assert!(tree.is_bounded(outer, 4));
    assert!(tree.is_bounded(outer, 3));
    assert!(!tree.is_bounded(outer, 2));
    assert!(!tree.is_bounded(7, 10));
    // a loop placed in its own body comes back to itself
    Node::extend_loop_body(&mut tree, inner, inner);
    assert!(!tree.is_bounded(outer, tree.len() + 1));
    assert!(tree.is_bounded(a, 1));
}

#[test]
fn constant_and_function_bounds_evaluate() {
    let c = DynamicBound::Constant(4);
    assert_eq!(c.eval(&[1, 2]), Some(4));
    let f = DynamicBound::Function(Box::new(|iv: &[i32]| iv[1] * 10));
    assert_eq!(f.eval(&[1, 2]), Some(20));
    let sum = DynamicBound::Apply(BoundOp::Sub, Box::new(f), Box::new(c));
    assert_eq!(sum.eval(&[1, 2]), Some(16));
}
