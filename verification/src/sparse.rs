//! Sparse adjacency matrices in compressed row format, and their product with a
//! dense feature matrix.

use vstd::prelude::*;

use crate::edges::{
    entry, integer_row, is_integer, law_contiguous_entries, law_entry_is_the_stored_number,
};
use crate::error::{failure, Error, ErrorView};
use crate::inplace_ops::{copy_dims, Tensor};
use crate::layout::{
    law_contiguous_elements_follow, law_layout_fits_exactly, law_matrix_positions, row_major,
    Layout,
};
use crate::storage::{CpuStorage, Precision};

verus! {

/// The number of edges that end at a node below `i`, by the nodes `dst` that the edges end at.
pub open spec fn edges_below(dst: Seq<i32>, i: int) -> nat
    decreases dst.len(),
{
    if dst.len() == 0 {
        0
    } else {
        edges_below(dst.drop_last(), i) + if dst.last() < i {
            1nat
        } else {
            0
        }
    }
}

/// The number of edges that end at node `v`.
pub open spec fn in_degree(dst: Seq<i32>, v: int) -> nat
    decreases dst.len(),
{
    if dst.len() == 0 {
        0
    } else {
        in_degree(dst.drop_last(), v) + if dst.last() == v {
            1nat
        } else {
            0
        }
    }
}

/// The nodes that the edges to node `v` start from, in the order of the edges.
pub open spec fn sources_of(src: Seq<i32>, dst: Seq<i32>, v: int) -> Seq<i32>
    decreases dst.len(),
{
    if dst.len() == 0 {
        Seq::empty()
    } else {
        let before = sources_of(src.drop_last(), dst.drop_last(), v);
        if dst.last() == v {
            before.push(src.last())
        } else {
            before
        }
    }
}

/// `r` holds the row pointers of a graph with `n` nodes: entry `i` counts the edges that
/// end at a node below `i`.
pub open spec fn is_row_ptr(dst: Seq<i32>, n: int, r: Seq<i32>) -> bool {
    &&& r.len() == n + 1
    &&& forall|i: int| 0 <= i <= n ==> #[trigger] r[i] == edges_below(dst, i)
}

/// Every edge ends at one of the nodes `0` to `n - 1`.
pub open spec fn ends_within(dst: Seq<i32>, n: int) -> bool {
    forall|k: int| 0 <= k < dst.len() ==> 0 <= #[trigger] dst[k] < n
}

proof fn lemma_below_step(dst: Seq<i32>, i: int)
    ensures
        edges_below(dst, i + 1) == edges_below(dst, i) + in_degree(dst, i),
    decreases dst.len(),
{
    if dst.len() > 0 {
        lemma_below_step(dst.drop_last(), i);
    }
}

proof fn lemma_below_ends(dst: Seq<i32>, n: int)
    requires
        ends_within(dst, n),
    ensures
        edges_below(dst, 0) == 0,
        edges_below(dst, n) == dst.len(),
    decreases dst.len(),
{
    if dst.len() > 0 {
        assert(ends_within(dst.drop_last(), n)) by {
            assert forall|k: int| 0 <= k < dst.drop_last().len() implies 0
                <= #[trigger] dst.drop_last()[k] < n by {
                assert(dst.drop_last()[k] == dst[k]);
            }
        }
        lemma_below_ends(dst.drop_last(), n);
        assert(dst.last() == dst[dst.len() - 1]);
    }
}

/// No more edges are counted than there are.
pub proof fn lemma_counts_bounded(dst: Seq<i32>, i: int)
    ensures
        edges_below(dst, i) <= dst.len(),
        in_degree(dst, i) <= dst.len(),
    decreases dst.len(),
{
    if dst.len() > 0 {
        lemma_counts_bounded(dst.drop_last(), i);
    }
}

proof fn lemma_below_monotone(dst: Seq<i32>, i: int, j: int)
    requires
        i <= j,
    ensures
        edges_below(dst, i) <= edges_below(dst, j),
    decreases dst.len(),
{
    if dst.len() > 0 {
        lemma_below_monotone(dst.drop_last(), i, j);
    }
}

proof fn lemma_degree_of_prefix(dst: Seq<i32>, k: int, v: int)
    requires
        0 <= k <= dst.len(),
    ensures
        in_degree(dst.take(k), v) <= in_degree(dst, v),
    decreases dst.len(),
{
    if k == dst.len() {
        assert(dst.take(k) =~= dst);
    } else {
        lemma_degree_of_prefix(dst.drop_last(), k, v);
        assert(dst.drop_last().take(k) =~= dst.take(k));
    }
}

/// Row pointers never decrease, and the row of a node is as long as edges end at the node.
pub proof fn law_rows_hold_in_degrees(dst: Seq<i32>, v: int, w: int)
    requires
        v <= w,
    ensures
        edges_below(dst, v) <= edges_below(dst, w),
        edges_below(dst, v + 1) - edges_below(dst, v) == in_degree(dst, v),
{
    lemma_below_step(dst, v);
    lemma_below_monotone(dst, v, w);
}

/// What one edge adds to the count, wherever in the list it stands.
proof fn lemma_below_without(dst: Seq<i32>, j: int, i: int)
    requires
        0 <= j < dst.len(),
    ensures
        edges_below(dst, i) == edges_below(dst.remove(j), i) + if dst[j] < i {
            1nat
        } else {
            0
        },
    decreases dst.len(),
{
    if j == dst.len() - 1 {
        assert(dst.remove(j) =~= dst.drop_last());
    } else {
        lemma_below_without(dst.drop_last(), j, i);
        assert(dst.remove(j).drop_last() =~= dst.drop_last().remove(j));
        assert(dst.remove(j).last() == dst.last());
    }
}

proof fn lemma_below_of_permutation(a: Seq<i32>, b: Seq<i32>, i: int)
    requires
        a.to_multiset() == b.to_multiset(),
    ensures
        edges_below(a, i) == edges_below(b, i),
    decreases a.len(),
{
    broadcast use vstd::seq_lib::group_to_multiset_ensures;

    assert(a.to_multiset().len() == a.len() && b.to_multiset().len() == b.len());
    if a.len() > 0 {
        let x = a.last();
        assert(a.contains(x)) by {
            assert(a[a.len() - 1] == x);
        }
        assert(b.to_multiset().count(x) > 0);
        assert(b.contains(x));
        let j = choose|j: int| 0 <= j < b.len() && b[j] == x;
        lemma_below_without(b, j, i);
        lemma_below_without(a, a.len() - 1, i);
        lemma_below_of_permutation(a.remove(a.len() - 1), b.remove(j), i);
    }
}

/// Row pointers do not depend on the order of the edges.
pub proof fn law_row_pointers_ignore_edge_order(
    a: Seq<i32>,
    b: Seq<i32>,
    n: int,
    of_a: Seq<i32>,
    of_b: Seq<i32>,
)
    requires
        a.to_multiset() == b.to_multiset(),
        is_row_ptr(a, n, of_a),
        is_row_ptr(b, n, of_b),
    ensures
        of_a == of_b,
{
    assert forall|i: int| 0 <= i <= n implies #[trigger] of_a[i] == of_b[i] by {
        lemma_below_of_permutation(a, b, i);
    }
    assert(of_a =~= of_b);
}

proof fn lemma_below_of_both(a: Seq<i32>, b: Seq<i32>, i: int)
    ensures
        edges_below(a + b, i) == edges_below(a, i) + edges_below(b, i),
    decreases b.len(),
{
    if b.len() == 0 {
        assert(a + b =~= a);
    } else {
        lemma_below_of_both(a, b.drop_last(), i);
        assert((a + b).drop_last() =~= a + b.drop_last());
    }
}

/// The row pointers of two edge lists put together are the sums of those of the two
/// lists: every edge counts, also one that occurs before.
pub proof fn law_row_pointers_add_up(
    a: Seq<i32>,
    b: Seq<i32>,
    n: int,
    of_a: Seq<i32>,
    of_b: Seq<i32>,
    of_both: Seq<i32>,
)
    requires
        is_row_ptr(a, n, of_a),
        is_row_ptr(b, n, of_b),
        is_row_ptr(a + b, n, of_both),
    ensures
        forall|i: int| 0 <= i <= n ==> #[trigger] of_both[i] == of_a[i] + of_b[i],
{
    assert forall|i: int| 0 <= i <= n implies #[trigger] of_both[i] == of_a[i] + of_b[i] by {
        lemma_below_of_both(a, b, i);
        assert(of_a[i] == edges_below(a, i) && of_b[i] == edges_below(b, i));
    }
}

/// The matrix of a graph has the row pointers that [`coo_to_csr_rowptr`] gives.
pub proof fn law_row_pointers_agree(
    m: CsrMatrix,
    src: Seq<i32>,
    dst: Seq<i32>,
    n: int,
    row_ptr: Seq<i32>,
)
    requires
        m.represents(src, dst, n),
        is_row_ptr(dst, n, row_ptr),
    ensures
        m.row_ptr@ == row_ptr,
{
    assert(m.row_ptr@ =~= row_ptr);
}

/// A node has as many sources as edges that end at it.
pub proof fn lemma_source_count(src: Seq<i32>, dst: Seq<i32>, v: int)
    requires
        src.len() == dst.len(),
    ensures
        sources_of(src, dst, v).len() == in_degree(dst, v),
    decreases dst.len(),
{
    if dst.len() > 0 {
        lemma_source_count(src.drop_last(), dst.drop_last(), v);
    }
}

/// The row pointers of a graph: the running sums of the in-degrees.
///
/// `dst_row` lists the node that each edge ends at. Entry `i` of the result, which
/// has `n_nodes + 1` entries, counts the edges that end at a node below `i`.
pub fn coo_to_csr_rowptr(dst_row: &[i32], n_nodes: usize) -> (r: Vec<i32>)
    requires
        ends_within(dst_row@, n_nodes as int),
        dst_row@.len() <= i32::MAX,
        n_nodes < usize::MAX,
    ensures
        is_row_ptr(dst_row@, n_nodes as int, r@),
        r@[0] == 0,
        r@[n_nodes as int] == dst_row@.len(),
{
    let mut degree: Vec<i32> = vec![0; n_nodes];
    let mut k: usize = 0;
    while k < dst_row.len()
        invariant
            ends_within(dst_row@, n_nodes as int),
            dst_row@.len() <= i32::MAX,
            k <= dst_row@.len(),
            degree@.len() == n_nodes,
            forall|v: int|
                0 <= v < n_nodes ==> #[trigger] degree@[v] == in_degree(
                    dst_row@.take(k as int),
                    v,
                ),
        decreases dst_row@.len() - k,
    {
        assert(dst_row@.take(k + 1).drop_last() =~= dst_row@.take(k as int));
        assert(0 <= dst_row@[k as int] < n_nodes);
        let d: usize = dst_row[k] as usize;
        proof {
            lemma_counts_bounded(dst_row@.take(k as int), d as int);
        }
        let n: i32 = degree[d] + 1;
        degree.set(d, n);
        k = k + 1;
    }
    assert(dst_row@.take(k as int) =~= dst_row@);
    let mut row_ptr: Vec<i32> = vec![0; n_nodes + 1];
    proof {
        lemma_below_ends(dst_row@, n_nodes as int);
    }
    let mut i: usize = 0;
    while i < n_nodes
        invariant
            dst_row@.len() <= i32::MAX,
            n_nodes < usize::MAX,
            i <= n_nodes,
            degree@.len() == n_nodes,
            row_ptr@.len() == n_nodes + 1,
            forall|v: int|
                0 <= v < n_nodes ==> #[trigger] degree@[v] == in_degree(dst_row@, v),
            forall|j: int| 0 <= j <= i ==> #[trigger] row_ptr@[j] == edges_below(dst_row@, j),
        decreases n_nodes - i,
    {
        proof {
            lemma_below_step(dst_row@, i as int);
            lemma_counts_bounded(dst_row@, i + 1);
        }
        let n: i32 = row_ptr[i] + degree[i];
        row_ptr.set(i + 1, n);
        i = i + 1;
    }
    row_ptr
}

/// Row `v` of `columns` lists the sources of node `v`, where row `v` starts behind
/// the rows of all nodes below `v`.
pub open spec fn columns_by_row(src: Seq<i32>, dst: Seq<i32>, n: int, columns: Seq<i32>) -> bool {
    &&& columns.len() == dst.len()
    &&& forall|v: int|
        0 <= v < n ==> columns.subrange(
            edges_below(dst, v) as int,
            edges_below(dst, v + 1) as int,
        ) == #[trigger] sources_of(src, dst, v)
}

/// Lists the sources of all edges, sorted by the node that the edge ends at and in
/// the order of the edges within a node.
fn columns_sorted(src_row: &Vec<i32>, dst_row: &Vec<i32>, row_ptr: &Vec<i32>, n_nodes: usize) -> (r:
    Vec<i32>)
    requires
        src_row@.len() == dst_row@.len(),
        ends_within(dst_row@, n_nodes as int),
        dst_row@.len() <= i32::MAX,
        row_ptr@.len() == n_nodes + 1,
        forall|i: int| 0 <= i <= n_nodes ==> #[trigger] row_ptr@[i] == edges_below(dst_row@, i),
    ensures
        columns_by_row(src_row@, dst_row@, n_nodes as int, r@),
{
    let ghost src = src_row@;
    let ghost dst = dst_row@;
    let e: usize = dst_row.len();
    let mut columns: Vec<i32> = vec![0; e];
    let mut cursor: Vec<i32> = Vec::new();
    let mut i: usize = 0;
    while i < n_nodes
        invariant
            row_ptr@.len() == n_nodes + 1,
            i <= n_nodes,
            cursor@.len() == i,
            forall|v: int| 0 <= v < i ==> cursor@[v] == row_ptr@[v],
        decreases n_nodes - i,
    {
        cursor.push(row_ptr[i]);
        i = i + 1;
    }
    let mut k: usize = 0;
    assert forall|v: int| 0 <= v < n_nodes implies #[trigger] cursor@[v] == edges_below(dst, v)
        + in_degree(dst.take(0), v) by {}
    while k < e
        invariant
            src == src_row@,
            dst == dst_row@,
            e == dst.len(),
            src.len() == dst.len(),
            ends_within(dst, n_nodes as int),
            dst.len() <= i32::MAX,
            k <= e,
            columns@.len() == e,
            cursor@.len() == n_nodes,
            forall|v: int|
                0 <= v < n_nodes ==> #[trigger] cursor@[v] == edges_below(dst, v) + in_degree(
                    dst.take(k as int),
                    v,
                ),
            forall|v: int, j: int|
                0 <= v < n_nodes && 0 <= j < in_degree(dst.take(k as int), v)
                    ==> columns@[edges_below(dst, v) + j] == #[trigger] sources_of(
                    src.take(k as int),
                    dst.take(k as int),
                    v,
                )[j],
        decreases e - k,
    {
        let ghost before = columns@;
        let ghost d0 = dst.take(k as int);
        let ghost d1 = dst.take(k + 1);
        let ghost s0 = src.take(k as int);
        let ghost s1 = src.take(k + 1);
        assert(0 <= dst[k as int] < n_nodes);
        let d: usize = dst_row[k] as usize;
        proof {
            assert(d1.drop_last() =~= d0);
            assert(s1.drop_last() =~= s0);
            lemma_degree_of_prefix(dst, k + 1, d as int);
            lemma_below_step(dst, d as int);
            lemma_counts_bounded(dst, d + 1);
        }
        let pos: usize = cursor[d] as usize;
        columns.set(pos, src_row[k]);
        let next: i32 = cursor[d] + 1;
        cursor.set(d, next);
        proof {
            assert forall|v: int, j: int|
                0 <= v < n_nodes && 0 <= j < in_degree(d1, v) implies columns@[edges_below(dst, v)
                + j] == #[trigger] sources_of(s1, d1, v)[j] by {
                lemma_source_count(s0, d0, v);
                if v == d && j == in_degree(d0, v) {
                } else {
                    assert(columns@[edges_below(dst, v) + j] == before[edges_below(dst, v) + j]) by {
                        lemma_degree_of_prefix(dst, k as int, v);
                        lemma_below_step(dst, v);
                        if v < d {
                            lemma_below_monotone(dst, v + 1, d as int);
                        } else if v > d {
                            lemma_below_monotone(dst, d + 1, v);
                        }
                        lemma_counts_bounded(dst, v + 1);
                    }
                    assert(before[edges_below(dst, v) + j] == sources_of(s0, d0, v)[j]);
                }
            }
        }
        k = k + 1;
    }
    proof {
        assert(dst.take(k as int) =~= dst);
        assert(src.take(k as int) =~= src);
        assert forall|v: int| 0 <= v < n_nodes implies columns@.subrange(
            edges_below(dst, v) as int,
            edges_below(dst, v + 1) as int,
        ) == #[trigger] sources_of(src, dst, v) by {
            lemma_below_step(dst, v);
            lemma_source_count(src, dst, v);
            lemma_counts_bounded(dst, v + 1);
            assert(columns@.subrange(
                edges_below(dst, v) as int,
                edges_below(dst, v + 1) as int,
            ) =~= sources_of(src, dst, v)) by {
                assert forall|j: int| 0 <= j < in_degree(dst, v) implies columns@[edges_below(dst, v)
                    + j] == sources_of(src, dst, v)[j] by {}
            }
        }
    }
    columns
}

/// The bit pattern of one at single precision.
pub const ONE_BITS: u32 = 0x3f80_0000;

/// A sparse adjacency matrix in compressed row format.
///
/// Entry `(v, u)` counts the edges from node `u` to node `v`. All stored values
/// are one: only the pattern of the graph matters.
#[derive(Debug)]
pub struct CsrMatrix {
    /// Number of rows, one for each node that an edge can end at.
    pub n_rows: usize,
    /// Number of columns, one for each node that an edge can start from.
    pub n_cols: usize,
    /// Number of stored entries, one for each edge.
    pub nnz: usize,
    /// Where the entries of each row start, and at the end their number.
    pub row_ptr: Vec<i32>,
    /// The column of each entry.
    pub col_idx: Vec<i32>,
    /// The value of each entry, by its bit pattern at single precision.
    pub values: Vec<u32>,
}

impl CsrMatrix {
    /// The arrays have the lengths that the counts give them, the rows follow one
    /// another, and all values are one.
    pub open spec fn wf(&self) -> bool {
        &&& self.row_ptr@.len() == self.n_rows + 1
        &&& self.row_ptr@[0] == 0
        &&& self.row_ptr@[self.n_rows as int] == self.nnz
        &&& forall|i: int, j: int|
            0 <= i <= j <= self.n_rows ==> #[trigger] self.row_ptr@[i] <= #[trigger] self.row_ptr@[j]
        &&& self.col_idx@.len() == self.nnz
        &&& self.values@.len() == self.nnz
        &&& forall|k: int| 0 <= k < self.nnz ==> #[trigger] self.values@[k] == ONE_BITS
    }

    /// The columns of the entries of row `v`.
    pub open spec fn row(&self, v: int) -> Seq<i32> {
        self.col_idx@.subrange(self.row_ptr@[v] as int, self.row_ptr@[v + 1] as int)
    }

    /// This is the matrix of the graph with `n` nodes and an edge from `src[k]` to
    /// `dst[k]` for each `k`.
    pub open spec fn represents(&self, src: Seq<i32>, dst: Seq<i32>, n: int) -> bool {
        &&& self.n_rows == n
        &&& self.n_cols == n
        &&& self.nnz == dst.len()
        &&& is_row_ptr(dst, n, self.row_ptr@)
        &&& columns_by_row(src, dst, n, self.col_idx@)
        &&& self.values@ == Seq::new(dst.len(), |k: int| ONE_BITS)
    }

    /// Builds the matrix of a graph from an edge list: a tensor of shape `[2, E]`
    /// with the node that each edge starts from in its first row and the node that
    /// it ends at in its second.
    ///
    /// Entries are integers and are taken as 32-bit numbers. A list of another shape
    /// is refused, and so is one with an edge that ends beyond the last node. Row
    /// pointers are 32-bit numbers too, which bounds the number of edges.
    pub fn from_edge_index<P: Precision>(edge_index: &Tensor<P>, n_nodes: usize) -> (r: Result<
        CsrMatrix,
        Error,
    >)
        requires
            edge_index.wf(),
            is_edge_list(edge_index.layout.dims@) ==> {
                &&& is_integer((*edge_index.storage).spec_dtype())
                &&& n_nodes <= isize::MAX
                &&& ends_within(index_row(*edge_index, 1), n_nodes as int)
                    ==> edge_index.layout.dims@[1] <= i32::MAX
            },
        ensures
            ({
                let dims = edge_index.layout.dims@;
                let src = index_row(*edge_index, 0);
                let dst = index_row(*edge_index, 1);
                if !is_edge_list(dims) {
                    failure(r) == Some(ErrorView::EdgeIndexShape { dims })
                } else if ends_within(dst, n_nodes as int) {
                    r matches Ok(m) && m.represents(src, dst, n_nodes as int) && m.wf()
                } else {
                    exists|k: int|
                        #![trigger dst[k]]
                        {
                            &&& 0 <= k < dst.len()
                            &&& dst[k] as usize >= n_nodes
                            &&& forall|j: int| 0 <= j < k ==> 0 <= #[trigger] dst[j] < n_nodes
                            &&& failure(r) == Some(
                                ErrorView::DestinationOutOfRange {
                                    index: dst[k] as usize,
                                    n_nodes,
                                },
                            )
                        }
                }
            }),
    {
        if edge_index.layout.dims.len() != 2 || edge_index.layout.dims[0] != 2 {
            return Err(Error::EdgeIndexShape { dims: copy_dims(&edge_index.layout.dims) });
        }
        let src_row = narrowed_row(edge_index, 0);
        let dst_row = narrowed_row(edge_index, 1);
        let e: usize = dst_row.len();
        match first_outside(&dst_row, n_nodes) {
            Some(k) => {
                let index: usize = #[verifier::truncate] (dst_row[k] as usize);
                assert(dst_row@[k as int] as usize == index);
                return Err(Error::DestinationOutOfRange { index, n_nodes });
            },
            None => {},
        }
        let row_ptr = coo_to_csr_rowptr(dst_row.as_slice(), n_nodes);
        let col_idx = columns_sorted(&src_row, &dst_row, &row_ptr, n_nodes);
        let values: Vec<u32> = vec![ONE_BITS; e];
        let m = CsrMatrix { n_rows: n_nodes, n_cols: n_nodes, nnz: e, row_ptr, col_idx, values };
        proof {
            assert(m.values@ =~= Seq::new(dst_row@.len(), |k: int| ONE_BITS));
            m.lemma_represents_wf(src_row@, dst_row@, n_nodes as int);
        }
        Ok(m)
    }

    proof fn lemma_represents_wf(&self, src: Seq<i32>, dst: Seq<i32>, n: int)
        requires
            self.represents(src, dst, n),
            ends_within(dst, n),
            n >= 0,
        ensures
            self.wf(),
    {
        lemma_below_ends(dst, n);
        assert forall|i: int, j: int| 0 <= i <= j <= n implies #[trigger] self.row_ptr@[i]
            <= #[trigger] self.row_ptr@[j] by {
            lemma_below_monotone(dst, i, j);
        }
    }
}

/// Whether a tensor of these dimensions can be an edge list: it is a matrix with two rows.
pub open spec fn is_edge_list(dims: Seq<usize>) -> bool {
    dims.len() == 2 && dims[0] == 2
}

/// Row `row` of an edge list, each entry taken as a 32-bit number.
pub open spec fn index_row<P: Precision>(t: Tensor<P>, row: int) -> Seq<i32> {
    Seq::new(t.layout.dims@[1] as nat, |k: int| entry(t, row, k) as i32)
}

fn narrowed_row<P: Precision>(t: &Tensor<P>, row: usize) -> (r: Vec<i32>)
    requires
        t.wf(),
        t.layout.dims@.len() == 2,
        row < t.layout.dims@[0],
        is_integer((*t.storage).spec_dtype()),
    ensures
        r@ == index_row(*t, row as int),
{
    let wide = integer_row(t, row);
    let mut r: Vec<i32> = Vec::new();
    let mut k: usize = 0;
    while k < wide.len()
        invariant
            k <= wide@.len(),
            r@.len() == k,
            forall|j: int| 0 <= j < k ==> #[trigger] r@[j] == wide@[j] as i32,
        decreases wide@.len() - k,
    {
        let n: i64 = wide[k];
        r.push(#[verifier::truncate] (n as i32));
        k = k + 1;
    }
    assert(r@ =~= index_row(*t, row as int));
    r
}

/// Whether every edge of an edge list ends at one of the nodes below `n_nodes`.
pub fn destinations_within<P: Precision>(edge_index: &Tensor<P>, n_nodes: usize) -> (r: bool)
    requires
        edge_index.wf(),
        is_edge_list(edge_index.layout.dims@),
        is_integer((*edge_index.storage).spec_dtype()),
        n_nodes <= isize::MAX,
    ensures
        r == ends_within(index_row(*edge_index, 1), n_nodes as int),
{
    let dst_row = narrowed_row(edge_index, 1);
    first_outside(&dst_row, n_nodes).is_none()
}

/// The first edge that does not end at one of the nodes below `n_nodes`, if there is one.
fn first_outside(dst_row: &Vec<i32>, n_nodes: usize) -> (r: Option<usize>)
    requires
        n_nodes <= isize::MAX,
    ensures
        match r {
            Some(k) => {
                &&& k < dst_row@.len()
                &&& dst_row@[k as int] as usize >= n_nodes
                &&& !(0 <= dst_row@[k as int] < n_nodes)
                &&& forall|j: int| 0 <= j < k ==> 0 <= #[trigger] dst_row@[j] < n_nodes
            },
            None => ends_within(dst_row@, n_nodes as int),
        },
{
    let mut k: usize = 0;
    while k < dst_row.len()
        invariant
            k <= dst_row@.len(),
            n_nodes <= isize::MAX,
            forall|j: int| 0 <= j < k ==> 0 <= #[trigger] dst_row@[j] < n_nodes,
        decreases dst_row@.len() - k,
    {
        proof {
            lemma_negative_is_large(dst_row@[k as int]);
        }
        if #[verifier::truncate] (dst_row[k] as usize) >= n_nodes {
            return Some(k);
        }
        k = k + 1;
    }
    None
}

proof fn lemma_negative_is_large(t: i32)
    ensures
        t < 0 ==> t as usize > isize::MAX,
        t >= 0 ==> t as usize == t,
{
    assert(usize::BITS == 64 && t < 0 ==> t as usize >= 0xffff_ffff_8000_0000) by (bit_vector);
    assert(usize::BITS == 32 && t < 0 ==> t as usize >= 0x8000_0000) by (bit_vector);
    assert(t >= 0 ==> t as usize == t) by (bit_vector);
}

/// The number of edges below a node is the number of ends in the list that are smaller.
pub proof fn law_edges_below_counts_smaller_ends(dst: Seq<i32>, i: int)
    ensures
        edges_below(dst, i) == dst.filter(|d: i32| d < i).len(),
    decreases dst.len(),
{
    reveal(Seq::filter);
    if dst.len() > 0 {
        law_edges_below_counts_smaller_ends(dst.drop_last(), i);
    }
}

/// The in-degree of a node is how often the node stands in the list of ends.
pub proof fn law_in_degree_is_the_multiplicity(dst: Seq<i32>, v: i32)
    ensures
        in_degree(dst, v as int) == dst.to_multiset().count(v),
    decreases dst.len(),
{
    broadcast use vstd::seq_lib::group_to_multiset_ensures;

    if dst.len() > 0 {
        law_in_degree_is_the_multiplicity(dst.drop_last(), v);
        assert(dst.drop_last().push(dst.last()) =~= dst);
    }
}

/// Row pointers start at zero, end at the number of edges, and between two of them lie as
/// many edges as the node stands in the list of ends.
pub proof fn law_row_pointers_hold_multiplicities(dst: Seq<i32>, n: int, r: Seq<i32>, v: i32)
    requires
        is_row_ptr(dst, n, r),
        forall|k: int| 0 <= k < dst.len() ==> 0 <= #[trigger] dst[k] < n,
        0 <= v < n,
    ensures
        r.len() == n + 1,
        r[0] == 0,
        r[n] == dst.len(),
        r[v + 1] - r[v as int] == dst.to_multiset().count(v),
{
    assert(ends_within(dst, n));
    lemma_below_ends(dst, n);
    lemma_below_step(dst, v as int);
    law_in_degree_is_the_multiplicity(dst, v);
    assert(r[0] == edges_below(dst, 0));
    assert(r[n] == edges_below(dst, n));
    assert(r[v + 1] == edges_below(dst, v + 1));
    assert(r[v as int] == edges_below(dst, v as int));
}

/// Every edge ends at a node of the graph exactly if no end is negative or too large; an
/// edge list is a matrix with two rows.
pub proof fn law_edge_list_conditions(dst: Seq<i32>, n: int, dims: Seq<usize>)
    ensures
        ends_within(dst, n) <==> forall|k: int|
            0 <= k < dst.len() ==> 0 <= #[trigger] dst[k] && dst[k] < n,
        is_edge_list(dims) <==> dims.len() == 2 && dims[0] == 2,
{
}

/// The rows of a contiguous edge list, read as 32-bit numbers, are the two halves of what
/// the storage holds from the start on, whatever the integer type, where the numbers are
/// 32-bit numbers.
pub proof fn law_edge_rows_are_the_stored_numbers<P: Precision>(
    t: Tensor<P>,
    numbers: Seq<int>,
    k: int,
)
    requires
        t.layout.dims@.len() == 2,
        t.layout.dims@[0] == 2,
        row_major(t.layout.dims@, t.layout.stride@),
        stores(*t.storage, numbers),
        0 <= k < t.layout.dims@[1],
        i32::MIN <= numbers[t.layout.start_offset + k] <= i32::MAX,
        i32::MIN <= numbers[t.layout.start_offset + t.layout.dims@[1] + k] <= i32::MAX,
        t.layout.fits(numbers.len()),
    ensures
        index_row(t, 0).len() == t.layout.dims@[1],
        index_row(t, 1).len() == t.layout.dims@[1],
        index_row(t, 0)[k] == numbers[t.layout.start_offset + k],
        index_row(t, 1)[k] == numbers[t.layout.start_offset + t.layout.dims@[1] + k],
{
    law_contiguous_entries(t, 0, k);
    law_contiguous_entries(t, 1, k);
    law_layout_fits_exactly(t.layout, numbers.len());
    law_matrix_positions(t.layout, 0, k);
    law_matrix_positions(t.layout, 1, k);
    let e = t.layout.dims@[1] as int;
    law_contiguous_elements_follow(t.layout, k);
    law_contiguous_elements_follow(t.layout, e + k);
    assert(0 * e == 0 && 1 * e == e);
    assert(t.layout.position(k) < numbers.len());
    assert(t.layout.position(e + k) < numbers.len());
}

/// The elements of a storage of integers, taken as mathematical integers, are `numbers`.
pub open spec fn stores<P: Precision>(s: CpuStorage<P>, numbers: Seq<int>) -> bool {
    match s {
        CpuStorage::U8(v) => v@.len() == numbers.len() && forall|i: int|
            0 <= i < numbers.len() ==> #[trigger] numbers[i] == v@[i],
        CpuStorage::U32(v) => v@.len() == numbers.len() && forall|i: int|
            0 <= i < numbers.len() ==> #[trigger] numbers[i] == v@[i],
        CpuStorage::I16(v) => v@.len() == numbers.len() && forall|i: int|
            0 <= i < numbers.len() ==> #[trigger] numbers[i] == v@[i],
        CpuStorage::I32(v) => v@.len() == numbers.len() && forall|i: int|
            0 <= i < numbers.len() ==> #[trigger] numbers[i] == v@[i],
        CpuStorage::I64(v) => v@.len() == numbers.len() && forall|i: int|
            0 <= i < numbers.len() ==> #[trigger] numbers[i] == v@[i],
        _ => false,
    }
}

/// The integer type of an edge list does not matter: two lists of one shape whose entries
/// are equal as mathematical integers are read as the same rows.
pub proof fn law_integer_type_does_not_matter<P: Precision>(
    a: Tensor<P>,
    b: Tensor<P>,
    of_a: Seq<int>,
    of_b: Seq<int>,
    row: int,
)
    requires
        a.layout.dims@ == b.layout.dims@,
        a.layout.dims@.len() == 2,
        a.layout.stride@.len() == 2,
        b.layout.stride@.len() == 2,
        stores(*a.storage, of_a),
        stores(*b.storage, of_b),
        a.layout.fits(of_a.len()),
        b.layout.fits(of_b.len()),
        forall|i: int, k: int|
            0 <= i < a.layout.dims@[0] && 0 <= k < a.layout.dims@[1]
                ==> #[trigger] of_a[a.layout.start_offset + i * a.layout.stride@[0] + k
                * a.layout.stride@[1]] == of_b[b.layout.start_offset + i * b.layout.stride@[0] + k
                * b.layout.stride@[1]],
        0 <= row < a.layout.dims@[0],
    ensures
        index_row(a, row) == index_row(b, row),
{
    assert forall|k: int| 0 <= k < a.layout.dims@[1] implies #[trigger] index_row(a, row)[k]
        == index_row(b, row)[k] by {
        law_entry_is_the_stored_number(a, row, k);
        law_entry_is_the_stored_number(b, row, k);
        law_layout_fits_exactly(a.layout, of_a.len());
        law_layout_fits_exactly(b.layout, of_b.len());
        law_matrix_positions(a.layout, row, k);
        law_matrix_positions(b.layout, row, k);
        let p = a.layout.start_offset + row * a.layout.stride@[0] + k * a.layout.stride@[1];
        let q = b.layout.start_offset + row * b.layout.stride@[0] + k * b.layout.stride@[1];
        assert(a.layout.position(row * a.layout.dims@[1] + k) == p);
        assert(b.layout.position(row * b.layout.dims@[1] + k) == q);
        assert(of_a[p] == of_b[q]);
    }
    assert(index_row(a, row) =~= index_row(b, row));
}

/// A position among the entries lies in the row of one of the nodes.
proof fn lemma_row_of_entry(dst: Seq<i32>, n: int, p: int) -> (v: int)
    requires
        0 <= n,
        0 <= p < edges_below(dst, n),
        edges_below(dst, 0) == 0,
    ensures
        0 <= v < n,
        edges_below(dst, v) <= p < edges_below(dst, v + 1),
    decreases n,
{
    if n > 0 && p >= edges_below(dst, n - 1) {
        n - 1
    } else {
        lemma_row_of_entry(dst, n - 1, p)
    }
}

/// An edge list determines its matrix: two matrices of one graph hold the same arrays.
pub proof fn law_matrix_is_determined(
    a: CsrMatrix,
    b: CsrMatrix,
    src: Seq<i32>,
    dst: Seq<i32>,
    n: int,
)
    requires
        a.represents(src, dst, n),
        b.represents(src, dst, n),
        ends_within(dst, n),
        n >= 0,
    ensures
        a.n_rows == b.n_rows,
        a.n_cols == b.n_cols,
        a.nnz == b.nnz,
        a.row_ptr@ == b.row_ptr@,
        a.col_idx@ == b.col_idx@,
        a.values@ == b.values@,
{
    lemma_below_ends(dst, n);
    assert(a.row_ptr@ =~= b.row_ptr@);
    assert forall|p: int| 0 <= p < a.col_idx@.len() implies #[trigger] a.col_idx@[p]
        == b.col_idx@[p] by {
        let v = lemma_row_of_entry(dst, n, p);
        lemma_counts_bounded(dst, v + 1);
        let (from, to) = (edges_below(dst, v) as int, edges_below(dst, v + 1) as int);
        assert(a.col_idx@.subrange(from, to) == sources_of(src, dst, v));
        assert(b.col_idx@.subrange(from, to) == sources_of(src, dst, v));
        assert(a.col_idx@.subrange(from, to)[p - from] == a.col_idx@[p]);
        assert(b.col_idx@.subrange(from, to)[p - from] == b.col_idx@[p]);
    }
    assert(a.col_idx@ =~= b.col_idx@);
}

/// A matrix of a graph is square with a row for each node, has an entry for each edge, and
/// all its values are one at single precision.
pub proof fn law_matrix_has_an_entry_for_each_edge(
    m: CsrMatrix,
    src: Seq<i32>,
    dst: Seq<i32>,
    n: int,
)
    requires
        m.represents(src, dst, n),
    ensures
        m.n_rows == n,
        m.n_cols == n,
        m.nnz == dst.len(),
        m.row_ptr@.len() == n + 1,
        m.col_idx@.len() == dst.len(),
        m.values@.len() == dst.len(),
        forall|k: int| 0 <= k < dst.len() ==> #[trigger] m.values@[k] == 0x3f80_0000u32,
{
}

/// [`coo_to_csr_rowptr`] gives one entry more than there are nodes, from zero to the number
/// of edges, and between the entries of a node as many edges as the node stands in the list.
pub proof fn law_row_pointers_of_a_list(dst: &[i32], n_nodes: usize, r: Vec<i32>, v: i32)
    requires
        call_ensures(coo_to_csr_rowptr, (dst, n_nodes), r),
        0 <= v < n_nodes,
    ensures
        r@.len() == n_nodes + 1,
        r@[0] == 0,
        r@[n_nodes as int] == dst@.len(),
        r@[v + 1] - r@[v as int] == dst@.to_multiset().count(v),
{
    lemma_below_step(dst@, v as int);
    law_in_degree_is_the_multiplicity(dst@, v);
    assert(r@[v + 1] == edges_below(dst@, v + 1));
    assert(r@[v as int] == edges_below(dst@, v as int));
}

/// `list` holds the numbers of row `row` of an edge list as they lie in a storage that holds
/// `numbers`.
pub open spec fn is_stored_row(
    layout: Layout,
    numbers: Seq<int>,
    row: int,
    list: Seq<i32>,
) -> bool {
    &&& list.len() == layout.dims@[1]
    &&& forall|k: int|
        0 <= k < list.len() ==> #[trigger] list[k] == numbers[layout.start_offset + row
            * layout.stride@[0] + k * layout.stride@[1]]
}

/// The rows that an edge list is read as are those that its storage holds, where these are
/// 32-bit numbers.
pub proof fn law_stored_rows_are_read<P: Precision>(
    t: Tensor<P>,
    numbers: Seq<int>,
    row: int,
    list: Seq<i32>,
)
    requires
        t.layout.dims@.len() == 2,
        t.layout.stride@.len() == 2,
        t.layout.fits(numbers.len()),
        stores(*t.storage, numbers),
        0 <= row < t.layout.dims@[0],
        is_stored_row(t.layout, numbers, row, list),
    ensures
        index_row(t, row) == list,
{
    assert forall|k: int| 0 <= k < list.len() implies #[trigger] index_row(t, row)[k]
        == list[k] by {
        law_entry_is_the_stored_number(t, row, k);
        law_layout_fits_exactly(t.layout, numbers.len());
        law_matrix_positions(t.layout, row, k);
        let p = t.layout.start_offset + row * t.layout.stride@[0] + k * t.layout.stride@[1];
        assert(t.layout.position(row * t.layout.dims@[1] + k) == p);
        assert(list[k] == numbers[p]);
    }
    assert(index_row(t, row) =~= list);
}

/// [`CsrMatrix::from_edge_index`] refuses a list that is no matrix with two rows and a list
/// with an edge to a node that does not exist, of which it names the first, and no other.
pub proof fn law_edge_list_refusals<P: Precision>(
    t: Tensor<P>,
    n_nodes: usize,
    numbers: Seq<int>,
    dst: Seq<i32>,
    r: Result<CsrMatrix, Error>,
)
    requires
        call_ensures(CsrMatrix::from_edge_index::<P>, (&t, n_nodes), r),
        t.layout.dims@.len() == 2 && t.layout.dims@[0] == 2 ==> {
            &&& t.layout.stride@.len() == 2
            &&& t.layout.fits(numbers.len())
            &&& stores(*t.storage, numbers)
            &&& is_stored_row(t.layout, numbers, 1, dst)
        },
    ensures
        if t.layout.dims@.len() != 2 || t.layout.dims@[0] != 2 {
            r matches Err(Error::EdgeIndexShape { dims }) && dims@ == t.layout.dims@
        } else if forall|k: int| 0 <= k < dst.len() ==> 0 <= #[trigger] dst[k] < n_nodes {
            r is Ok
        } else {
            r matches Err(Error::DestinationOutOfRange { index, n_nodes: n }) && n == n_nodes
                && exists|k: int|
                {
                    &&& 0 <= k < dst.len()
                    &&& #[trigger] dst[k] as usize == index
                    &&& dst[k] as usize >= n_nodes
                    &&& forall|j: int| 0 <= j < k ==> 0 <= #[trigger] dst[j] < n_nodes
                }
        },
{
    if t.layout.dims@.len() == 2 && t.layout.dims@[0] == 2 {
        law_stored_rows_are_read(t, numbers, 1, dst);
    }
}

/// [`destinations_within`] tells whether the second row of the list, as the storage holds
/// it, has only numbers from zero on and below the number of nodes.
pub proof fn law_destinations_within<P: Precision>(
    t: Tensor<P>,
    n_nodes: usize,
    numbers: Seq<int>,
    dst: Seq<i32>,
    r: bool,
)
    requires
        call_ensures(destinations_within::<P>, (&t, n_nodes), r),
        t.layout.dims@.len() == 2,
        t.layout.dims@[0] == 2,
        t.layout.stride@.len() == 2,
        t.layout.fits(numbers.len()),
        stores(*t.storage, numbers),
        is_stored_row(t.layout, numbers, 1, dst),
    ensures
        r <==> forall|k: int| 0 <= k < dst.len() ==> 0 <= #[trigger] dst[k] < n_nodes,
{
    law_stored_rows_are_read(t, numbers, 1, dst);
}

/// An edge list is read entry by entry from its storage, each number taken as a 32-bit
/// number.
pub proof fn law_entries_are_narrowed<P: Precision>(t: Tensor<P>, row: int, k: int)
    requires
        t.layout.dims@.len() == 2,
        t.layout.stride@.len() == 2,
        0 <= row < t.layout.dims@[0],
        0 <= k < t.layout.dims@[1],
    ensures
        index_row(t, row).len() == t.layout.dims@[1],
        ({
            let i = t.layout.start_offset + row * t.layout.stride@[0] + k * t.layout.stride@[1];
            match *t.storage {
                CpuStorage::U8(v) => index_row(t, row)[k] == v@[i] as i32,
                CpuStorage::U32(v) => index_row(t, row)[k] == v@[i] as i32,
                CpuStorage::I16(v) => index_row(t, row)[k] == v@[i] as i32,
                CpuStorage::I32(v) => index_row(t, row)[k] == v@[i] as i32,
                CpuStorage::I64(v) => index_row(t, row)[k] == v@[i] as i32,
                _ => true,
            }
        }),
{
    law_entry_is_the_stored_number(t, row, k);
}

} // verus!
