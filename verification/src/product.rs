//! What the product of an adjacency matrix with a feature matrix is.
//!
//! Message passing adds, for every edge from `u` to `v`, the features of `u` to
//! those of `v`. The laws here state that this is the product with the adjacency
//! matrix, entry by entry and sum by sum.

use vstd::prelude::*;

use crate::edges::entry;
use crate::element::{combines, is_zero, BinaryOp, Real};
use crate::error::Error;
use crate::inplace_ops::Tensor;
use crate::layout::Layout;
use crate::message_passing::{
    collects, feature_column, is_collected, lemma_row_of, node_row, storage_collected,
};
use crate::sparse::{
    edges_below, in_degree, index_row, is_stored_row, law_in_degree_is_the_multiplicity,
    law_integer_type_does_not_matter, law_matrix_has_an_entry_for_each_edge,
    law_matrix_is_determined, law_row_pointers_hold_multiplicities, law_rows_hold_in_degrees,
    law_stored_rows_are_read, lemma_counts_bounded, lemma_source_count, sources_of, stores,
    CsrMatrix,
};
use crate::storage::{CpuStorage, Precision};

verus! {

/// The sum of `feat(u)` over all `u` of a list.
pub open spec fn sum_over(list: Seq<i32>, feat: spec_fn(int) -> int) -> int
    decreases list.len(),
{
    if list.len() == 0 {
        0
    } else {
        sum_over(list.drop_last(), feat) + feat(list.last() as int)
    }
}

/// How often `u` stands in a list.
pub open spec fn occurrences(list: Seq<i32>, u: int) -> nat
    decreases list.len(),
{
    if list.len() == 0 {
        0
    } else {
        occurrences(list.drop_last(), u) + if list.last() == u {
            1nat
        } else {
            0
        }
    }
}

/// The number of edges from `u` to `v`.
pub open spec fn edge_count(src: Seq<i32>, dst: Seq<i32>, u: int, v: int) -> nat
    decreases dst.len(),
{
    if dst.len() == 0 {
        0
    } else {
        edge_count(src.drop_last(), dst.drop_last(), u, v) + if dst.last() == v && src.last() == u {
            1nat
        } else {
            0
        }
    }
}

/// What node `v` holds after `feat(u)` was added, for every edge from `u` to `w`,
/// to what node `w` held, with zero at first.
pub open spec fn scattered(
    src: Seq<i32>,
    dst: Seq<i32>,
    feat: spec_fn(int) -> int,
    v: int,
) -> int
    decreases dst.len(),
{
    if dst.len() == 0 {
        0
    } else {
        scattered(src.drop_last(), dst.drop_last(), feat, v) + if dst.last() == v {
            feat(src.last() as int)
        } else {
            0
        }
    }
}

/// Entry `v` of the product of the dense matrix with the rows `row(v)` and a
/// column vector: the sum over all columns `u` below `n` of how often `u` stands
/// in the row, times `feat(u)`.
pub open spec fn dense_row_product(row: Seq<i32>, feat: spec_fn(int) -> int, n: nat) -> int
    decreases n,
{
    if n == 0 {
        0
    } else {
        dense_row_product(row, feat, (n - 1) as nat) + occurrences(row, n - 1) * feat(n - 1)
    }
}

/// `r` is zero with the features of all nodes of a list added to it in order.
pub open spec fn adds_up<T: Real>(feat: spec_fn(int) -> T, list: Seq<i32>, r: T) -> bool
    decreases list.len(),
{
    if list.len() == 0 {
        is_zero(r)
    } else {
        exists|before: T|
            {
                &&& adds_up(feat, list.drop_last(), before)
                &&& #[trigger] combines(BinaryOp::Add, before, feat(list.last() as int), r)
            }
    }
}

proof fn lemma_row_is_sources(m: CsrMatrix, src: Seq<i32>, dst: Seq<i32>, n: int, v: int)
    requires
        m.represents(src, dst, n),
        0 <= v < n,
    ensures
        m.row(v) == sources_of(src, dst, v),
{
}

/// Entry `(v, u)` of a graph's matrix counts the edges from `u` to `v`.
pub proof fn law_entries_count_edges(
    m: CsrMatrix,
    src: Seq<i32>,
    dst: Seq<i32>,
    n: int,
    v: int,
    u: int,
)
    requires
        m.represents(src, dst, n),
        src.len() == dst.len(),
        0 <= v < n,
    ensures
        occurrences(m.row(v), u) == edge_count(src, dst, u, v),
{
    lemma_row_is_sources(m, src, dst, n, v);
    lemma_occurrences(src, dst, v, u);
}

proof fn lemma_occurrences(src: Seq<i32>, dst: Seq<i32>, v: int, u: int)
    requires
        src.len() == dst.len(),
    ensures
        occurrences(sources_of(src, dst, v), u) == edge_count(src, dst, u, v),
    decreases dst.len(),
{
    if dst.len() > 0 {
        lemma_occurrences(src.drop_last(), dst.drop_last(), v, u);
        let before = sources_of(src.drop_last(), dst.drop_last(), v);
        assert(before.push(src.last()).drop_last() =~= before);
    }
}

/// Every edge has an entry of its own, and the entries of a row keep the order of
/// the edges: edge `k` stands behind the rows of all lower nodes and behind the
/// earlier edges to the same node.
pub proof fn law_edges_keep_their_order(
    m: CsrMatrix,
    src: Seq<i32>,
    dst: Seq<i32>,
    n: int,
    k: int,
)
    requires
        m.represents(src, dst, n),
        src.len() == dst.len(),
        0 <= k < dst.len(),
        0 <= dst[k] < n,
    ensures
        m.col_idx@[(edges_below(dst, dst[k] as int) + in_degree(dst.take(k), dst[k] as int)) as int]
            == src[k],
{
    let v = dst[k] as int;
    lemma_row_is_sources(m, src, dst, n, v);
    lemma_source_at(src, dst, k);
    law_rows_hold_in_degrees(dst, v, v + 1);
    lemma_source_count(src, dst, v);
    lemma_counts_bounded(dst, v + 1);
    assert(m.row_ptr@[v] == edges_below(dst, v));
    assert(m.row_ptr@[v + 1] == edges_below(dst, v + 1));
    let row = m.row(v);
    let j = in_degree(dst.take(k), v) as int;
    assert(row[j] == m.col_idx@[edges_below(dst, v) + j]);
}

proof fn lemma_source_at(src: Seq<i32>, dst: Seq<i32>, k: int)
    requires
        src.len() == dst.len(),
        0 <= k < dst.len(),
    ensures
        in_degree(dst.take(k), dst[k] as int) < sources_of(src, dst, dst[k] as int).len(),
        sources_of(src, dst, dst[k] as int)[in_degree(dst.take(k), dst[k] as int) as int] == src[k],
    decreases dst.len(),
{
    let s = src.drop_last();
    let d = dst.drop_last();
    let v = dst[k] as int;
    if k == dst.len() - 1 {
        assert(dst.take(k) =~= d);
        lemma_source_count(s, d, v);
    } else {
        assert(d.take(k) =~= dst.take(k));
        assert(d[k] == dst[k] && s[k] == src[k]);
        lemma_source_at(s, d, k);
    }
}

/// Adding features along the edges gives every node the sum of the features over
/// the entries of its row: the entries are all that a product has to visit.
pub proof fn law_scatter_is_row_sum(
    m: CsrMatrix,
    src: Seq<i32>,
    dst: Seq<i32>,
    n: int,
    feat: spec_fn(int) -> int,
    v: int,
)
    requires
        m.represents(src, dst, n),
        src.len() == dst.len(),
        0 <= v < n,
    ensures
        sum_over(m.row(v), feat) == scattered(src, dst, feat, v),
{
    lemma_row_is_sources(m, src, dst, n, v);
    lemma_scattered(src, dst, feat, v);
}

proof fn lemma_scattered(src: Seq<i32>, dst: Seq<i32>, feat: spec_fn(int) -> int, v: int)
    requires
        src.len() == dst.len(),
    ensures
        sum_over(sources_of(src, dst, v), feat) == scattered(src, dst, feat, v),
    decreases dst.len(),
{
    if dst.len() > 0 {
        lemma_scattered(src.drop_last(), dst.drop_last(), feat, v);
        let before = sources_of(src.drop_last(), dst.drop_last(), v);
        assert(before.push(src.last()).drop_last() =~= before);
    }
}

/// Adding features along the edges is the product of the dense adjacency matrix
/// with the features: where every edge starts from one of the `n` nodes, what node
/// `v` holds is the sum over all nodes `u` of entry `(v, u)` times the feature of `u`.
pub proof fn law_scatter_is_matrix_product(
    m: CsrMatrix,
    src: Seq<i32>,
    dst: Seq<i32>,
    n: nat,
    feat: spec_fn(int) -> int,
    v: int,
)
    requires
        m.represents(src, dst, n as int),
        src.len() == dst.len(),
        forall|k: int| 0 <= k < src.len() ==> 0 <= #[trigger] src[k] < n,
        0 <= v < n,
    ensures
        dense_row_product(m.row(v), feat, n) == scattered(src, dst, feat, v),
{
    law_scatter_is_row_sum(m, src, dst, n as int, feat, v);
    lemma_row_is_sources(m, src, dst, n as int, v);
    lemma_sources_within(src, dst, n as int, v);
    lemma_dense_product(m.row(v), feat, n);
}

proof fn lemma_sources_within(src: Seq<i32>, dst: Seq<i32>, n: int, v: int)
    requires
        src.len() == dst.len(),
        forall|k: int| 0 <= k < src.len() ==> 0 <= #[trigger] src[k] < n,
    ensures
        forall|k: int|
            0 <= k < sources_of(src, dst, v).len() ==> 0 <= #[trigger] sources_of(src, dst, v)[k]
                < n,
    decreases dst.len(),
{
    if dst.len() > 0 {
        let s = src.drop_last();
        assert forall|k: int| 0 <= k < s.len() implies 0 <= #[trigger] s[k] < n by {
            assert(s[k] == src[k]);
        }
        lemma_sources_within(s, dst.drop_last(), n, v);
        assert(0 <= src[src.len() - 1] < n);
        let before = sources_of(s, dst.drop_last(), v);
        let all = sources_of(src, dst, v);
        assert forall|k: int| 0 <= k < all.len() implies 0 <= #[trigger] all[k] < n by {
            if k < before.len() {
                assert(all[k] == before[k]);
            }
        }
    }
}

proof fn lemma_dense_product(row: Seq<i32>, feat: spec_fn(int) -> int, n: nat)
    requires
        forall|k: int| 0 <= k < row.len() ==> 0 <= #[trigger] row[k] < n,
    ensures
        dense_row_product(row, feat, n) == sum_over(row, feat),
    decreases row.len(),
{
    if row.len() == 0 {
        lemma_empty_row(row, feat, n);
    } else {
        let rest = row.drop_last();
        assert forall|k: int| 0 <= k < rest.len() implies 0 <= #[trigger] rest[k] < n by {
            assert(rest[k] == row[k]);
        }
        lemma_dense_product(rest, feat, n);
        lemma_one_more(row, feat, n);
        assert(0 <= row[row.len() - 1] < n);
    }
}

proof fn lemma_empty_row(row: Seq<i32>, feat: spec_fn(int) -> int, n: nat)
    requires
        row.len() == 0,
    ensures
        dense_row_product(row, feat, n) == 0,
    decreases n,
{
    if n > 0 {
        lemma_empty_row(row, feat, (n - 1) as nat);
        assert(occurrences(row, n - 1) == 0);
        assert(0 * feat(n - 1) == 0);
    }
}

proof fn lemma_one_more(row: Seq<i32>, feat: spec_fn(int) -> int, n: nat)
    requires
        row.len() > 0,
    ensures
        dense_row_product(row, feat, n) == dense_row_product(row.drop_last(), feat, n) + if 0
            <= row.last() < n {
            feat(row.last() as int)
        } else {
            0
        },
    decreases n,
{
    if n > 0 {
        lemma_one_more(row, feat, (n - 1) as nat);
        let c = occurrences(row.drop_last(), n - 1) as int;
        let f = feat(n - 1);
        assert((c + 1) * f == c * f + f) by (nonlinear_arith);
    }
}

/// What a node collects in message passing is the sum over the entries of its row,
/// addition by addition and rounding included, where both are built from one edge list.
pub proof fn law_collected_is_row_sum<T: Real>(
    m: CsrMatrix,
    src: Seq<i64>,
    dst: Seq<i64>,
    src32: Seq<i32>,
    dst32: Seq<i32>,
    n: int,
    feat: spec_fn(int) -> T,
    v: int,
    r: T,
)
    requires
        m.represents(src32, dst32, n),
        src.len() == dst.len(),
        src32.len() == src.len(),
        dst32.len() == dst.len(),
        forall|k: int| 0 <= k < src.len() ==> src[k] == #[trigger] src32[k],
        forall|k: int| 0 <= k < dst.len() ==> dst[k] == #[trigger] dst32[k],
        0 <= v < n,
    ensures
        collects(feat, src, dst, v, r) == adds_up(feat, m.row(v), r),
{
    lemma_row_is_sources(m, src32, dst32, n, v);
    lemma_collected(src, dst, src32, dst32, feat, v, r);
}

proof fn lemma_collected<T: Real>(
    src: Seq<i64>,
    dst: Seq<i64>,
    src32: Seq<i32>,
    dst32: Seq<i32>,
    feat: spec_fn(int) -> T,
    v: int,
    r: T,
)
    requires
        src.len() == dst.len(),
        src32.len() == src.len(),
        dst32.len() == dst.len(),
        forall|k: int| 0 <= k < src.len() ==> src[k] == #[trigger] src32[k],
        forall|k: int| 0 <= k < dst.len() ==> dst[k] == #[trigger] dst32[k],
    ensures
        collects(feat, src, dst, v, r) == adds_up(feat, sources_of(src32, dst32, v), r),
    decreases dst.len(),
{
    if dst.len() > 0 {
        let s = src32.drop_last();
        let d = dst32.drop_last();
        assert forall|k: int| 0 <= k < s.len() implies src.drop_last()[k] == #[trigger] s[k] by {
            assert(s[k] == src32[k]);
        }
        assert forall|k: int| 0 <= k < d.len() implies dst.drop_last()[k] == #[trigger] d[k] by {
            assert(d[k] == dst32[k]);
        }
        let before = sources_of(s, d, v);
        let list = sources_of(src32, dst32, v);
        let u = src32.last() as int;
        assert(src.last() == src32[src.len() - 1]);
        assert(dst.last() == dst32[dst.len() - 1]);
        if dst.last() == v {
            assert(list.drop_last() =~= before);
            assert(list.last() == u);
            if collects(feat, src, dst, v, r) {
                let x = choose|x: T|
                    {
                        &&& collects(feat, src.drop_last(), dst.drop_last(), v, x)
                        &&& #[trigger] combines(BinaryOp::Add, x, feat(u), r)
                    };
                lemma_collected(src.drop_last(), dst.drop_last(), s, d, feat, v, x);
                assert(adds_up(feat, list.drop_last(), x));
            }
            if adds_up(feat, list, r) {
                let x = choose|x: T|
                    {
                        &&& adds_up(feat, before, x)
                        &&& #[trigger] combines(BinaryOp::Add, x, feat(u), r)
                    };
                lemma_collected(src.drop_last(), dst.drop_last(), s, d, feat, v, x);
            }
        } else {
            lemma_collected(src.drop_last(), dst.drop_last(), s, d, feat, v, r);
        }
    }
}

/// `result` holds, row after row, the sums of the features over the entries of the
/// rows of `m`, for `n` rows and each of the `width` columns of the features.
pub open spec fn is_row_sums<T: Real>(
    m: CsrMatrix,
    features: Seq<T>,
    layout: Layout,
    width: int,
    n: int,
    result: Seq<T>,
) -> bool {
    &&& result.len() == n * width
    &&& forall|i: int|
        0 <= i < result.len() ==> adds_up(
            feature_column(features, layout, width, i % width),
            m.row(i / width),
            #[trigger] result[i],
        )
}

/// `result` is the product of `m`, which has `n` rows, with the features: in each row
/// the sum of the features over the entries of the row, in the type of the features.
pub open spec fn storage_product<P: Precision>(
    m: CsrMatrix,
    features: Tensor<P>,
    n: int,
    result: CpuStorage<P>,
) -> bool {
    let l = features.layout;
    let width = l.dims@[1] as int;
    match (*features.storage, result) {
        (CpuStorage::BF16(f), CpuStorage::BF16(r)) => is_row_sums(m, f@, l, width, n, r@),
        (CpuStorage::F16(f), CpuStorage::F16(r)) => is_row_sums(m, f@, l, width, n, r@),
        (CpuStorage::F32(f), CpuStorage::F32(r)) => is_row_sums(m, f@, l, width, n, r@),
        (CpuStorage::F64(f), CpuStorage::F64(r)) => is_row_sums(m, f@, l, width, n, r@),
        _ => false,
    }
}

/// Summing over the neighbours is the product with the adjacency matrix: what
/// [`aggregate_sum`](crate::message_passing::aggregate_sum) gives on an edge list is
/// the product of the features with the matrix that
/// [`from_edge_index`](CsrMatrix::from_edge_index) builds from the list, where all
/// node numbers are 32-bit numbers.
pub proof fn law_aggregation_is_matrix_product<P: Precision>(
    m: CsrMatrix,
    features: Tensor<P>,
    edges: Tensor<P>,
    n: int,
    sum: CpuStorage<P>,
)
    requires
        m.represents(index_row(edges, 0), index_row(edges, 1), n),
        forall|row: int, k: int|
            0 <= row < 2 && 0 <= k < edges.layout.dims@[1] ==> 0 <= #[trigger] entry(edges, row, k)
                <= i32::MAX,
        storage_collected(features, edges, n, sum),
    ensures
        storage_product(m, features, n, sum),
{
    let width = features.layout.dims@[1] as int;
    match (&*features.storage, &sum) {
        (CpuStorage::BF16(f), CpuStorage::BF16(r)) => {
            lemma_aggregation(m, edges, n, f@, features.layout, width, r@);
        },
        (CpuStorage::F16(f), CpuStorage::F16(r)) => {
            lemma_aggregation(m, edges, n, f@, features.layout, width, r@);
        },
        (CpuStorage::F32(f), CpuStorage::F32(r)) => {
            lemma_aggregation(m, edges, n, f@, features.layout, width, r@);
        },
        (CpuStorage::F64(f), CpuStorage::F64(r)) => {
            lemma_aggregation(m, edges, n, f@, features.layout, width, r@);
        },
        _ => {},
    }
}

proof fn lemma_aggregation<P: Precision, T: Real>(
    m: CsrMatrix,
    edges: Tensor<P>,
    n: int,
    features: Seq<T>,
    layout: Layout,
    width: int,
    result: Seq<T>,
)
    requires
        m.represents(index_row(edges, 0), index_row(edges, 1), n),
        forall|row: int, k: int|
            0 <= row < 2 && 0 <= k < edges.layout.dims@[1] ==> 0 <= #[trigger] entry(edges, row, k)
                <= i32::MAX,
        is_collected(
            features,
            layout,
            width,
            node_row(edges, 0),
            node_row(edges, 1),
            n,
            result,
        ),
        0 <= width,
    ensures
        is_row_sums(m, features, layout, width, n, result),
{
    let src = node_row(edges, 0);
    let dst = node_row(edges, 1);
    let src32 = index_row(edges, 0);
    let dst32 = index_row(edges, 1);
    assert forall|k: int| 0 <= k < src.len() implies src[k] == #[trigger] src32[k] by {
        assert(0 <= entry(edges, 0, k) <= i32::MAX);
    }
    assert forall|k: int| 0 <= k < dst.len() implies dst[k] == #[trigger] dst32[k] by {
        assert(0 <= entry(edges, 1, k) <= i32::MAX);
    }
    assert forall|i: int| 0 <= i < result.len() implies adds_up(
        feature_column(features, layout, width, i % width),
        m.row(i / width),
        #[trigger] result[i],
    ) by {
        lemma_row_of(i, n, width);
        law_collected_is_row_sum(
            m,
            src,
            dst,
            src32,
            dst32,
            n,
            feature_column(features, layout, width, i % width),
            i / width,
            result[i],
        );
    }
}

/// [`CsrMatrix::from_edge_index`] gives the matrix of the edges that the storage holds, an
/// edge from `src[k]` to `dst[k]` for each `k`: a square matrix with a row for each node
/// and an entry for each edge, all of them one. Row `v` has as many entries as edges end at
/// `v`, and the entry of edge `k`, which stands behind those of the earlier edges to the same
/// node, lies in the column `src[k]`.
pub proof fn law_matrix_holds_the_stored_edges<P: Precision>(
    t: Tensor<P>,
    n_nodes: usize,
    m: CsrMatrix,
    numbers: Seq<int>,
    src: Seq<i32>,
    dst: Seq<i32>,
    k: int,
    v: i32,
)
    requires
        call_ensures(CsrMatrix::from_edge_index::<P>, (&t, n_nodes), Ok(m)),
        t.layout.stride@.len() == 2,
        t.layout.fits(numbers.len()),
        stores(*t.storage, numbers),
        is_stored_row(t.layout, numbers, 0, src),
        is_stored_row(t.layout, numbers, 1, dst),
        0 <= k < dst.len(),
        0 <= v < n_nodes,
    ensures
        t.layout.dims@ == seq![2, dst.len() as usize],
        m.n_rows == n_nodes,
        m.n_cols == n_nodes,
        m.nnz == dst.len(),
        m.row_ptr@.len() == n_nodes + 1,
        m.col_idx@.len() == dst.len(),
        m.values@.len() == dst.len(),
        m.values@[k] == 0x3f80_0000u32,
        m.row_ptr@[0] == 0,
        m.row_ptr@[n_nodes as int] == dst.len(),
        m.row_ptr@[v + 1] - m.row_ptr@[v as int] == dst.to_multiset().count(v),
        0 <= dst[k] < n_nodes,
        m.col_idx@[m.row_ptr@[dst[k] as int] + dst.take(k).to_multiset().count(dst[k])] == src[k],
{
    law_stored_rows_are_read(t, numbers, 0, src);
    law_stored_rows_are_read(t, numbers, 1, dst);
    assert(t.layout.dims@ =~= seq![2, dst.len() as usize]);
    assert(m.represents(src, dst, n_nodes as int));
    law_matrix_has_an_entry_for_each_edge(m, src, dst, n_nodes as int);
    law_row_pointers_hold_multiplicities(dst, n_nodes as int, m.row_ptr@, v);
    law_edges_keep_their_order(m, src, dst, n_nodes as int, k);
    law_in_degree_is_the_multiplicity(dst.take(k), dst[k]);
    assert(m.row_ptr@[dst[k] as int] == edges_below(dst, dst[k] as int));
}

/// The integer type of an edge list does not matter: two lists of one shape whose numbers
/// are equal as mathematical integers give matrices with the same arrays, and the one is
/// refused exactly if the other is.
pub proof fn law_equal_numbers_give_one_matrix<P: Precision>(
    a: Tensor<P>,
    b: Tensor<P>,
    of_a: Seq<int>,
    of_b: Seq<int>,
    n_nodes: usize,
    x: Result<CsrMatrix, Error>,
    y: Result<CsrMatrix, Error>,
)
    requires
        call_ensures(CsrMatrix::from_edge_index::<P>, (&a, n_nodes), x),
        call_ensures(CsrMatrix::from_edge_index::<P>, (&b, n_nodes), y),
        a.layout.dims@ == b.layout.dims@,
        a.layout.dims@.len() == 2,
        a.layout.stride@.len() == 2,
        b.layout.stride@.len() == 2,
        stores(*a.storage, of_a),
        stores(*b.storage, of_b),
        a.layout.fits(of_a.len()),
        b.layout.fits(of_b.len()),
        forall|i: int, k: int|
            0 <= i < a.layout.dims@[0] && 0 <= k < a.layout.dims@[1]
                ==> #[trigger] of_a[a.layout.start_offset + i * a.layout.stride@[0] + k
                * a.layout.stride@[1]] == of_b[b.layout.start_offset + i * b.layout.stride@[0] + k
                * b.layout.stride@[1]],
    ensures
        x is Ok <==> y is Ok,
        x matches Ok(m) ==> (y matches Ok(o) ==> {
            &&& m.n_rows == o.n_rows
            &&& m.n_cols == o.n_cols
            &&& m.nnz == o.nnz
            &&& m.row_ptr@ == o.row_ptr@
            &&& m.col_idx@ == o.col_idx@
            &&& m.values@ == o.values@
        }),
{
    if a.layout.dims@[0] == 2 {
        law_integer_type_does_not_matter(a, b, of_a, of_b, 0);
        law_integer_type_does_not_matter(a, b, of_a, of_b, 1);
        if x is Ok && y is Ok {
            law_matrix_is_determined(
                x->Ok_0,
                y->Ok_0,
                index_row(a, 0),
                index_row(a, 1),
                n_nodes as int,
            );
        }
    }
}

} // verus!
