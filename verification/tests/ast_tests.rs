use dace::ast::{AryRef, BranchStmt, LoopStmt, LoopTree, Node, NodeId, Stmt};
use dace::bound::{BoundOp, DynamicBound, LoopBound};
use dace::callbacks::{ArrayAccess, BranchCondition, DynamicBoundFunction, LoopStep, LoopTest};
use dace::structure::{LineKind, StructureLine};

#[test]
fn acc_ref() {
    let ar = AryRef {
        name: "X".to_string(),
        dim: vec![10],
        indices: vec![],
        sub: Box::new(|iv: &[i32]| vec![(iv[0] as usize) + 1]),
        base: None,
        ref_id: None,
        ri: vec![],
    };
    assert_eq!(ar.sub.access(&[1]), [2]);
}

#[test]
fn matrix_ref() {
    let ar = AryRef {
        name: "A".to_string(),
        dim: vec![10, 10],
        indices: vec![],
        sub: Box::new(|ijk: &[i32]| vec![ijk[0] as usize, ijk[1] as usize]),
        base: None,
        ref_id: None,
        ri: vec![],
    };
    assert_eq!(ar.sub.access(&[1, 2, 3]), [1, 2]);
}

#[test]
fn matmul_2() {
    let mut tree = LoopTree::new();
    let n: usize = 100; // array dim
    let ubound = n as i32; // loop bound
                           // creating C[i,j] += A[i,k] * B[k,j]
    let ref_c = Node::new_ref(&mut tree, "C", vec![n, n], |ijk| {
        vec![ijk[0] as usize, ijk[1] as usize]
    });
    let ref_a = Node::new_ref(&mut tree, "A", vec![n, n], |ijk| {
        vec![ijk[0] as usize, ijk[2] as usize]
    });
    let ref_b = Node::new_ref(&mut tree, "B", vec![n, n], |ijk| {
        vec![ijk[2] as usize, ijk[1] as usize]
    });

    // creating loop k = 0, n { s_ref }
    let k_loop = Node::new_single_loop(&mut tree, "k", 0, ubound);
    [ref_c, ref_a, ref_b]
        .iter()
        .for_each(|s| Node::extend_loop_body(&mut tree, k_loop, *s));
    // creating loop j = 0, n
    let j_loop = Node::new_single_loop(&mut tree, "j", 0, ubound);
    Node::extend_loop_body(&mut tree, j_loop, k_loop);
    // creating loop i = 0, n
    let i_loop = Node::new_single_loop(&mut tree, "i", 0, ubound);
    Node::extend_loop_body(&mut tree, i_loop, j_loop);

    assert_eq!(tree.node(i_loop).node_count(&tree), 6);
}

#[test]
fn example_dyn() {
    // for i in 0..n
    //     for j in 0 .. n - i
    let mut tree = LoopTree::new();
    let n: usize = 100; // array dim
    let ubound = n as i32; // loop bound
    let j_loop = Node::new_single_loop_dyn_ub(&mut tree, "j", 0, Box::new(move |i: &[i32]| ubound - i[0]));
    // creating loop i = 0, n
    let i_loop = Node::new_single_loop(&mut tree, "i", 0, ubound);
    Node::extend_loop_body(&mut tree, i_loop, j_loop);

    println!("{:?}", tree.structure(j_loop));
    assert_eq!(tree.node(i_loop).node_count(&tree), 2);
}

/// `loop_node!(ivar, lb => ub)` with the default test and step, written out.
fn loop_node(tree: &mut LoopTree, ivar: &str, lb: LoopBound, ub: LoopBound) -> NodeId {
    Node::new_loop(tree, ivar, lb, ub, |i, ub| i < ub, |i| i + 1)
}

/// `loop_node!(ivar, lb => ub, step: step)`, written out.
fn loop_node_step<G: Fn(i32) -> i32 + 'static>(
    tree: &mut LoopTree,
    ivar: &str,
    lb: LoopBound,
    ub: LoopBound,
    step: G,
) -> NodeId {
    Node::new_loop(tree, ivar, lb, ub, |i, ub| i < ub, step)
}

#[test]
fn example_macro() {
    // for i in 0..n step by 2
    //     for j in 0 .. n - i
    let mut tree = LoopTree::new();
    let n: usize = 100; // array dim
    let ubound = n as i32; // loop bound
    let j_loop = loop_node(&mut tree, "j", 0.into(), (move |i: &[i32]| ubound - i[0]).into());
    // creating loop i = 0, n
    let i_loop = loop_node_step(&mut tree, "i", 0.into(), ubound.into(), |x| x + 2);
    Node::extend_loop_body(&mut tree, i_loop, j_loop);

    assert_eq!(tree.node(i_loop).node_count(&tree), 2);
}

#[test]
fn example_if_then() {
    // for i in 0..n step by 2
    let mut tree = LoopTree::new();
    let ubound = 100; // loop bound

    let ref_a = Node::new_ref(&mut tree, "A", vec![100], |i| vec![i[0] as usize]);

    let branch = Node::new_node(
        &mut tree,
        Stmt::Branch(BranchStmt {
            cond: Box::new(|ivec: &[i32]| ivec[0] & 1 == 0),
            then_body: ref_a,
            else_body: None,
        }),
    );

    // creating loop i = 0, n
    let i_loop = loop_node_step(&mut tree, "i", 0.into(), ubound.into(), |x| x + 2);
    Node::extend_loop_body(&mut tree, i_loop, branch);

    assert_eq!(tree.node(i_loop).node_count(&tree), 3);
}

#[test]
fn example_if_then_else() {
    // for i in 0..n step by 2
    let mut tree = LoopTree::new();
    let ubound = 100; // loop bound

    let ref_a = Node::new_ref(&mut tree, "A", vec![100], |i| vec![i[0] as usize]);

    let ref_b = Node::new_ref(&mut tree, "B", vec![100], |i| vec![i[0] as usize]);

    let branch = Node::new_node(
        &mut tree,
        Stmt::Branch(BranchStmt {
            cond: Box::new(|ivec: &[i32]| ivec[0] & 1 == 0),
            then_body: ref_a,
            else_body: Some(ref_b),
        }),
    );

    // creating loop i = 0, n
    let i_loop = loop_node_step(&mut tree, "i", 0.into(), ubound.into(), |x| x + 2);
    Node::extend_loop_body(&mut tree, i_loop, branch);

    assert_eq!(tree.node(i_loop).node_count(&tree), 4);
}

#[test]
fn mat_transpose1() {
    let mut tree = LoopTree::new();
    let n: usize = 1024;
    let ubound = n as i32;
    // for (int c0 = 0; c0 < n; c0 += 1)
    // for (int c1 = 0; c1 < n; c1 += 1)
    //   x1[c0] = (x1[c0] + (A[c0][c1] * y_1[c1]));
    let ref_x1 = Node::new_ref(&mut tree, "x1", vec![n], |ij| vec![ij[0] as usize]);
    let ref_a = Node::new_ref(&mut tree, "a", vec![n, n], |ij| vec![ij[0] as usize, ij[1] as usize]);
    let ref_y1 = Node::new_ref(&mut tree, "y1", vec![n], |ij| vec![ij[1] as usize]);

    let j_loop = Node::new_single_loop(&mut tree, "j", 0, ubound);
    [ref_x1, ref_a, ref_y1]
        .iter()
        .for_each(|s| Node::extend_loop_body(&mut tree, j_loop, *s));

    let i_loop = Node::new_single_loop(&mut tree, "i", 0, ubound);
    Node::extend_loop_body(&mut tree, i_loop, j_loop);

    assert_eq!(tree.node(i_loop).node_count(&tree), 5);
}
