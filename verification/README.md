# dace

Loop trees of array programs, verified with Verus: loops with fixed, affine or
dynamic bounds, array references with their subscripts, blocks and branches.

- `src/ast.rs` — the nodes, the `LoopTree` arena that holds them, the
  constructors, `extend_loop_body`, the accessors and `node_count`.
- `src/bound.rs` — loop bounds and their arithmetic (`+ - * /`), with dynamic
  bounds kept as expressions that are evaluated on demand.
- `src/callbacks.rs` — the traits behind the user-supplied functions
  (subscripts, conditions, tests, steps, dynamic bounds).
- `src/structure.rs` — the lines that show a subtree, in order and by depth.
- `src/laws.rs` — facts across calls: node counts and extension.
- `app/` — printing and the construction macros.
