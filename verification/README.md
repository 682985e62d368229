# candle_gnn

The host side of graph neural network kernels, verified with Verus.

* `src/inplace_ops.rs`: `add_`, `sub_` and `mul_` on tensors that hold their storage alone,
  and the fused `add_relu`. `elementwise.rs` holds `add`, `sub`, `mul` and `relu`, which
  allocate their results, and ties the others to them. `element.rs` and `bfloat.rs` hold the
  arithmetic of the elements, `storage.rs` and `layout.rs` how they are kept.
* `src/sparse.rs`: adjacency matrices in compressed row format from edge lists. `spmm.rs` lays
  out the calls of a sparse product, and `product.rs` states what that product is.
* `src/message_passing.rs`: sums and means over the neighbours of every node.
* `src/graph.rs`, `modules.rs`, `device.rs`: what a device is to do next when a graph is
  recorded or replayed, when a kernel is looked up, and when memory is allocated.
* `app/`: the device itself, reached through `cudarc`, and the machine's floating-point types.

Functions whose names start with `law_` state what holds across functions.

What is taken on trust: `+`, `-`, `*` and `>` of `half::bf16` (`src/bfloat.rs`), and
`Arc::get_mut` and `Arc::clone` of the standard library (`src/inplace_ops.rs`).
