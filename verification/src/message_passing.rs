//! Message passing: every node collects the features of the nodes with an edge to it.

use vstd::prelude::*;

use crate::bfloat::Bf16;
use crate::dtype::DType;
use crate::edges::{
    entry, holds_integers, integer_row, is_integer, law_entry_is_the_stored_number,
};
use crate::element::{combines, functional_sum, is_zero, BinaryOp, Real};
use crate::error::{failure, Error, ErrorView};
use crate::inplace_ops::{copy_dims, is_float, Tensor};
use crate::layout::{
    law_contiguous_elements_follow, law_matrix_positions, lemma_matrix_count,
    lemma_matrix_countable, lemma_offset_within_span, lemma_row_major_span, row_major, tail,
    Layout,
};
use crate::sparse::{edges_below, in_degree, is_row_ptr, law_rows_hold_in_degrees};
use crate::storage::{CpuStorage, Precision};

verus! {

/// `r` is what a node `v` collects: zero, and in the order of the edges each value
/// `feat(u)` added to it for an edge from `u` to `v`.
pub open spec fn collects<T: Real>(
    feat: spec_fn(int) -> T,
    src: Seq<i64>,
    dst: Seq<i64>,
    v: int,
    r: T,
) -> bool
    decreases dst.len(),
{
    if dst.len() == 0 {
        is_zero(r)
    } else if dst.last() == v {
        exists|before: T|
            {
                &&& collects(feat, src.drop_last(), dst.drop_last(), v, before)
                &&& #[trigger] combines(BinaryOp::Add, before, feat(src.last() as int), r)
            }
    } else {
        collects(feat, src.drop_last(), dst.drop_last(), v, r)
    }
}

/// Column `j` of a feature matrix with `width` columns, by row.
pub open spec fn feature_column<T: Real>(
    features: Seq<T>,
    layout: Layout,
    width: int,
    j: int,
) -> spec_fn(int) -> T {
    |u: int| features[layout.position(u * width + j)]
}

/// `result` holds, row after row, what each of `n` nodes collects in each of the
/// `width` columns of the features.
pub open spec fn is_collected<T: Real>(
    features: Seq<T>,
    layout: Layout,
    width: int,
    src: Seq<i64>,
    dst: Seq<i64>,
    n: int,
    result: Seq<T>,
) -> bool {
    &&& result.len() == n * width
    &&& forall|i: int|
        0 <= i < result.len() ==> collects(
            feature_column(features, layout, width, i % width),
            src,
            dst,
            i / width,
            #[trigger] result[i],
        )
}

/// Every number of `row` lies below `n`.
pub open spec fn all_below(row: Seq<i64>, n: int) -> bool {
    forall|k: int| 0 <= k < row.len() ==> 0 <= #[trigger] row[k] < n
}

proof fn lemma_cell(v: int, width: int, j: int)
    requires
        0 <= v,
        0 <= j < width,
    ensures
        (v * width + j) / width == v,
        (v * width + j) % width == j,
{
    vstd::arithmetic::div_mod::lemma_fundamental_div_mod_converse(v * width + j, width, v, j);
}

proof fn lemma_cell_bound(v: int, n: int, width: int, j: int)
    by (nonlinear_arith)
    requires
        0 <= v < n,
        0 <= j < width,
    ensures
        0 <= v * width,
        v * width + j < n * width,
{
}

/// Adds up, for each node and column, the features that reach the node.
fn collect<T: Real>(
    features: &Vec<T>,
    layout: &Layout,
    src_row: &Vec<i64>,
    dst_row: &Vec<i64>,
    n_nodes: usize,
) -> (r: Vec<T>)
    requires
        layout.wf(),
        layout.fits(features@.len()),
        layout.dims@.len() == 2,
        src_row@.len() == dst_row@.len(),
        all_below(src_row@, layout.dims@[0] as int),
        all_below(dst_row@, n_nodes as int),
        n_nodes * layout.dims@[1] <= usize::MAX,
    ensures
        is_collected(
            features@,
            *layout,
            layout.dims@[1] as int,
            src_row@,
            dst_row@,
            n_nodes as int,
            r@,
        ),
{
    let width: usize = layout.dims[1];
    let total: usize = n_nodes * width;
    let mut out: Vec<T> = Vec::new();
    let mut i: usize = 0;
    while i < total
        invariant
            i <= total,
            out@.len() == i,
            forall|k: int| 0 <= k < i ==> is_zero(#[trigger] out@[k]),
        decreases total - i,
    {
        let zero = T::zero();
        assert(is_zero(zero));
        out.push(zero);
        i = i + 1;
    }
    let ghost src = src_row@;
    let ghost dst = dst_row@;
    let mut e: usize = 0;
    while e < dst_row.len()
        invariant
            layout.wf(),
            layout.fits(features@.len()),
            layout.dims@.len() == 2,
            width == layout.dims@[1],
            total == n_nodes * width,
            src == src_row@,
            dst == dst_row@,
            src.len() == dst.len(),
            all_below(src, layout.dims@[0] as int),
            all_below(dst, n_nodes as int),
            e <= dst.len(),
            is_collected(
                features@,
                *layout,
                width as int,
                src.take(e as int),
                dst.take(e as int),
                n_nodes as int,
                out@,
            ),
        decreases dst.len() - e,
    {
        assert(0 <= src[e as int] < layout.dims@[0]);
        assert(0 <= dst[e as int] < n_nodes);
        let u: usize = src_row[e] as usize;
        let v: usize = dst_row[e] as usize;
        let ghost s0 = src.take(e as int);
        let ghost d0 = dst.take(e as int);
        let ghost s1 = src.take(e + 1);
        let ghost d1 = dst.take(e + 1);
        proof {
            assert(s1.drop_last() =~= s0);
            assert(d1.drop_last() =~= d0);
            lemma_matrix_count(layout.dims@);
            assert(tail(layout.dims@, 0) =~= layout.dims@);
            assert(features.len() == features@.len());
        }
        let mut j: usize = 0;
        while j < width
            invariant
                layout.wf(),
                layout.fits(features@.len()),
                features@.len() <= usize::MAX,
                layout.dims@.len() == 2,
                layout.count() == layout.dims@[0] * layout.dims@[1],
                layout.count() <= usize::MAX,
                width == layout.dims@[1],
                total == n_nodes * width,
                u < layout.dims@[0],
                v < n_nodes,
                s1.len() > 0,
                d1.len() > 0,
                s1.drop_last() == s0,
                d1.drop_last() == d0,
                s1.last() == u,
                d1.last() == v,
                j <= width,
                out@.len() == total,
                forall|i: int|
                    0 <= i < out@.len() ==> if i / width as int == v && i % width as int >= j {
                        collects(
                            feature_column(features@, *layout, width as int, i % width as int),
                            s0,
                            d0,
                            i / width as int,
                            #[trigger] out@[i],
                        )
                    } else {
                        collects(
                            feature_column(features@, *layout, width as int, i % width as int),
                            s1,
                            d1,
                            i / width as int,
                            out@[i],
                        )
                    },
            decreases width - j,
        {
            let ghost before = out@;
            proof {
                lemma_cell(v as int, width as int, j as int);
                lemma_cell_bound(v as int, n_nodes as int, width as int, j as int);
                lemma_cell_bound(u as int, layout.dims@[0] as int, width as int, j as int);
                lemma_offset_within_span(layout.dims@, layout.stride@, u * width + j);
            }
            let from: usize = layout.offset(u * width + j);
            let to: usize = v * width + j;
            let x = T::combine(BinaryOp::Add, out[to], features[from]);
            proof {
                let feat = feature_column(features@, *layout, width as int, j as int);
                assert(collects(feat, s0, d0, v as int, before[to as int]));
                assert(combines(BinaryOp::Add, before[to as int], feat(u as int), x));
                assert(collects(feat, s1, d1, v as int, x));
            }
            out.set(to, x);
            proof {
                assert forall|i: int| 0 <= i < out@.len() implies if i / width as int == v && i
                    % width as int >= j + 1 {
                    collects(
                        feature_column(features@, *layout, width as int, i % width as int),
                        s0,
                        d0,
                        i / width as int,
                        #[trigger] out@[i],
                    )
                } else {
                    collects(
                        feature_column(features@, *layout, width as int, i % width as int),
                        s1,
                        d1,
                        i / width as int,
                        out@[i],
                    )
                } by {
                    if i != to {
                        assert(out@[i] == before[i]);
                        if i / width as int == v && i % width as int == j {
                            vstd::arithmetic::div_mod::lemma_fundamental_div_mod(
                                i,
                                width as int,
                            );
                            vstd::arithmetic::mul::lemma_mul_is_commutative(
                                v as int,
                                width as int,
                            );
                        }
                    }
                }
            }
            j = j + 1;
        }
        proof {
            assert forall|i: int| 0 <= i < out@.len() implies collects(
                feature_column(features@, *layout, width as int, i % width as int),
                s1,
                d1,
                i / width as int,
                #[trigger] out@[i],
            ) by {
                if width > 0 {
                    vstd::arithmetic::div_mod::lemma_mod_bound(i, width as int);
                } else {
                    vstd::arithmetic::mul::lemma_mul_basics(n_nodes as int);
                }
            }
        }
        e = e + 1;
    }
    assert(src.take(e as int) =~= src);
    assert(dst.take(e as int) =~= dst);
    out
}

/// Row `row` of an edge list.
pub open spec fn node_row<P: Precision>(t: Tensor<P>, row: int) -> Seq<i64> {
    Seq::new(t.layout.dims@[1] as nat, |k: int| entry(t, row, k) as i64)
}

/// The first number of `row` that does not lie below `size`, if there is one, is
/// named as an invalid index of `op`.
pub open spec fn names_first_beyond(
    row: Seq<i64>,
    size: usize,
    op: Seq<char>,
    e: Option<ErrorView>,
) -> bool {
    exists|k: int|
        #![trigger row[k]]
        {
            &&& 0 <= k < row.len()
            &&& !(0 <= row[k] < size)
            &&& all_below(row.take(k), size as int)
            &&& e == Some(ErrorView::InvalidIndex { index: row[k] as usize, size, op })
        }
}

/// Refuses a row with a number that does not lie below `size`.
fn check_below(row: &Vec<i64>, size: usize, op: &'static str) -> (r: Result<(), Error>)
    ensures
        if all_below(row@, size as int) {
            r is Ok
        } else {
            names_first_beyond(row@, size, op@, failure(r))
        },
{
    let mut k: usize = 0;
    while k < row.len()
        invariant
            k <= row@.len(),
            all_below(row@.take(k as int), size as int),
        decreases row@.len() - k,
    {
        let n: i64 = row[k];
        if n < 0 || n as u64 >= size as u64 {
            assert(!(0 <= row@[k as int] < size));
            let index: usize = #[verifier::truncate] (n as usize);
            return Err(Error::InvalidIndex { index, size, op });
        }
        assert forall|i: int| 0 <= i < row@.take(k + 1).len() implies 0 <= #[trigger] row@.take(
            k + 1,
        )[i] < size by {
            if i < k {
                assert(row@.take(k + 1)[i] == row@.take(k as int)[i]);
            }
        }
        k = k + 1;
    }
    assert(row@.take(k as int) =~= row@);
    Ok(())
}

/// What does not depend on node numbers but speaks against an aggregation, if
/// anything does: an edge list that is no matrix with two rows of integers, or
/// features that are no matrix.
pub open spec fn form_failure<P: Precision>(features: Tensor<P>, edges: Tensor<P>) -> Option<
    ErrorView,
> {
    if edges.layout.dims@.len() != 2 {
        Some(ErrorView::UnexpectedRank { expected: 2, dims: edges.layout.dims@ })
    } else if edges.layout.dims@[0] < 2 {
        Some(ErrorView::EdgeRow { row: edges.layout.dims@[0], dims: edges.layout.dims@ })
    } else if features.layout.dims@.len() != 2 {
        Some(ErrorView::UnexpectedRank { expected: 2, dims: features.layout.dims@ })
    } else if !is_integer((*edges.storage).spec_dtype()) {
        Some(
            ErrorView::UnsupportedDTypeForOp {
                dtype: (*edges.storage).spec_dtype(),
                op: "index-select"@,
            },
        )
    } else {
        None
    }
}

/// `e` is what speaks against an aggregation over `n` nodes, and `None` where
/// nothing does.
pub open spec fn aggregation_failure<P: Precision>(
    features: Tensor<P>,
    edges: Tensor<P>,
    n_nodes: usize,
    e: Option<ErrorView>,
) -> bool {
    let rows = features.layout.dims@[0];
    let dtype = (*features.storage).spec_dtype();
    if form_failure(features, edges) is Some {
        e == form_failure(features, edges)
    } else if !all_below(node_row(edges, 0), rows as int) {
        names_first_beyond(node_row(edges, 0), rows, "index-select"@, e)
    } else if !is_float(dtype) {
        e == Some(ErrorView::UnsupportedDTypeForOp { dtype, op: "gnn-scatter-add"@ })
    } else if !all_below(node_row(edges, 1), n_nodes as int) {
        names_first_beyond(node_row(edges, 1), n_nodes, "gnn-scatter-add"@, e)
    } else {
        e is None
    }
}

/// `result` holds what each of `n` nodes collects, in the type of the features.
pub open spec fn storage_collected<P: Precision>(
    features: Tensor<P>,
    edges: Tensor<P>,
    n: int,
    result: CpuStorage<P>,
) -> bool {
    let layout = features.layout;
    let width = layout.dims@[1] as int;
    let src = node_row(edges, 0);
    let dst = node_row(edges, 1);
    match (*features.storage, result) {
        (CpuStorage::BF16(f), CpuStorage::BF16(r)) => is_collected(
            f@,
            layout,
            width,
            src,
            dst,
            n,
            r@,
        ),
        (CpuStorage::F16(f), CpuStorage::F16(r)) => is_collected(f@, layout, width, src, dst, n, r@),
        (CpuStorage::F32(f), CpuStorage::F32(r)) => is_collected(f@, layout, width, src, dst, n, r@),
        (CpuStorage::F64(f), CpuStorage::F64(r)) => is_collected(f@, layout, width, src, dst, n, r@),
        _ => false,
    }
}

/// `layout` is that of a contiguous matrix.
pub open spec fn is_matrix(layout: Layout, rows: usize, cols: usize) -> bool {
    &&& layout.dims@ == seq![rows, cols]
    &&& row_major(layout.dims@, layout.stride@)
    &&& layout.start_offset == 0
}

/// The layout of a contiguous matrix.
fn matrix_layout(rows: usize, cols: usize) -> (r: Layout)
    requires
        rows * cols <= usize::MAX,
    ensures
        r.wf(),
        is_matrix(r, rows, cols),
        r.count() == rows * cols,
        r.fits((rows * cols) as nat),
{
    let mut dims: Vec<usize> = Vec::new();
    dims.push(rows);
    dims.push(cols);
    proof {
        lemma_matrix_count(dims@);
        lemma_matrix_countable(dims@);
    }
    let layout = Layout::contiguous(dims);
    proof {
        if layout.count() > 0 {
            lemma_row_major_span(layout.dims@, layout.stride@);
        }
        assert(layout.dims@ =~= seq![rows, cols]);
    }
    layout
}

/// Sums the features of the nodes with an edge to a node: row `v` of the result is
/// the sum of row `u` of the features over all edges from `u` to `v`.
///
/// `node_features` is a floating-point matrix with a row for each node. The first
/// row of the matrix `edge_index` holds the node that each edge starts from, the
/// second the node that it ends at. The result has `n_nodes` rows, with zeros for
/// a node without an edge to it.
pub fn aggregate_sum<P: Precision>(
    node_features: &Tensor<P>,
    edge_index: &Tensor<P>,
    n_nodes: usize,
) -> (r: Result<Tensor<P>, Error>)
    requires
        node_features.wf(),
        edge_index.wf(),
        aggregation_failure(*node_features, *edge_index, n_nodes, None) ==> n_nodes
            * node_features.layout.dims@[1] <= usize::MAX,
    ensures
        aggregation_failure(*node_features, *edge_index, n_nodes, failure(r)),
        r matches Ok(t) ==> {
            &&& t.wf()
            &&& is_aggregated(*node_features, *edge_index, n_nodes, t)
        },
{
    if edge_index.layout.dims.len() != 2 {
        return Err(
            Error::UnexpectedRank { expected: 2, dims: copy_dims(&edge_index.layout.dims) },
        );
    }
    if edge_index.layout.dims[0] < 2 {
        return Err(
            Error::EdgeRow {
                row: edge_index.layout.dims[0],
                dims: copy_dims(&edge_index.layout.dims),
            },
        );
    }
    if node_features.layout.dims.len() != 2 {
        return Err(
            Error::UnexpectedRank { expected: 2, dims: copy_dims(&node_features.layout.dims) },
        );
    }
    if !holds_integers(edge_index.storage.dtype()) {
        return Err(
            Error::UnsupportedDTypeForOp {
                dtype: edge_index.storage.dtype(),
                op: "index-select",
            },
        );
    }
    let src_row = integer_row(edge_index, 0);
    let dst_row = integer_row(edge_index, 1);
    assert(src_row@ =~= node_row(*edge_index, 0));
    assert(dst_row@ =~= node_row(*edge_index, 1));
    match check_below(&src_row, node_features.layout.dims[0], "index-select") {
        Err(e) => return Err(e),
        Ok(()) => {},
    }
    let dtype = node_features.storage.dtype();
    match dtype {
        DType::BF16 | DType::F16 | DType::F32 | DType::F64 => {},
        _ => return Err(Error::UnsupportedDTypeForOp { dtype, op: "gnn-scatter-add" }),
    }
    match check_below(&dst_row, n_nodes, "gnn-scatter-add") {
        Err(e) => return Err(e),
        Ok(()) => {},
    }
    assert(aggregation_failure(*node_features, *edge_index, n_nodes, None));
    let l = &node_features.layout;
    let storage = match &*node_features.storage {
        CpuStorage::BF16(f) => CpuStorage::BF16(collect(f, l, &src_row, &dst_row, n_nodes)),
        CpuStorage::F16(f) => CpuStorage::F16(collect(f, l, &src_row, &dst_row, n_nodes)),
        CpuStorage::F32(f) => CpuStorage::F32(collect(f, l, &src_row, &dst_row, n_nodes)),
        CpuStorage::F64(f) => CpuStorage::F64(collect(f, l, &src_row, &dst_row, n_nodes)),
        _ => return Err(Error::UnsupportedDTypeForOp { dtype, op: "gnn-scatter-add" }),
    };
    let layout = matrix_layout(n_nodes, node_features.layout.dims[1]);
    Ok(Tensor { storage: std::sync::Arc::new(storage), layout })
}

/// The number of edges to node `v`.
pub open spec fn fan_in(dst: Seq<i64>, v: int) -> nat
    decreases dst.len(),
{
    if dst.len() == 0 {
        0
    } else {
        fan_in(dst.drop_last(), v) + if dst.last() == v {
            1nat
        } else {
            0
        }
    }
}

/// What the sum at a node with `n` edges to it is divided by: the number of the
/// edges, and one where there is no edge.
pub open spec fn divisor(n: nat) -> nat {
    if n == 0 {
        1
    } else {
        n
    }
}

/// `x` is element `i` of `s` at single precision.
pub open spec fn is_single<P: Precision>(s: CpuStorage<P>, i: int, x: P::F32) -> bool {
    match s {
        CpuStorage::BF16(v) => call_ensures(P::bf16_to_f32, (v@[i],), x),
        CpuStorage::F16(v) => call_ensures(P::f16_to_f32, (v@[i],), x),
        CpuStorage::F32(v) => x == v@[i],
        CpuStorage::F64(v) => call_ensures(P::f64_to_f32, (v@[i],), x),
        _ => false,
    }
}

/// `y` is element `i` of `s` at single precision, divided by `n`.
pub open spec fn is_quotient<P: Precision>(s: CpuStorage<P>, i: int, n: nat, y: P::F32) -> bool {
    &&& n <= u64::MAX
    &&& exists|x: P::F32|
        #[trigger] is_single(s, i, x) && call_ensures(P::divide, (x, n as u64), y)
}

/// `result` holds the elements of `sum` at single precision, each divided by the
/// divisor of the node in whose row of length `width` it stands.
pub open spec fn is_mean<P: Precision>(
    sum: CpuStorage<P>,
    dst: Seq<i64>,
    width: int,
    result: Seq<P::F32>,
) -> bool {
    &&& result.len() == sum.spec_len()
    &&& forall|i: int|
        0 <= i < result.len() ==> is_quotient(
            sum,
            i,
            divisor(fan_in(dst, i / width)),
            #[trigger] result[i],
        )
}

/// There are not more edges to a node than edges.
proof fn lemma_fan_in_bounded(dst: Seq<i64>, v: int)
    ensures
        fan_in(dst, v) <= dst.len(),
    decreases dst.len(),
{
    if dst.len() > 0 {
        lemma_fan_in_bounded(dst.drop_last(), v);
    }
}

/// Counts the edges to each node, and one for a node without any.
fn divisors(dst_row: &Vec<i64>, n_nodes: usize) -> (r: Vec<u64>)
    requires
        all_below(dst_row@, n_nodes as int),
    ensures
        r@.len() == n_nodes,
        forall|v: int| 0 <= v < n_nodes ==> #[trigger] r@[v] == divisor(fan_in(dst_row@, v)),
{
    let ghost dst = dst_row@;
    let mut counts: Vec<u64> = vec![0; n_nodes];
    assert(dst_row.len() == dst.len());
    let mut e: usize = 0;
    while e < dst_row.len()
        invariant
            dst == dst_row@,
            all_below(dst, n_nodes as int),
            e <= dst.len(),
            dst.len() <= u64::MAX,
            counts@.len() == n_nodes,
            forall|v: int|
                0 <= v < n_nodes ==> #[trigger] counts@[v] == fan_in(dst.take(e as int), v),
        decreases dst.len() - e,
    {
        assert(dst.take(e + 1).drop_last() =~= dst.take(e as int));
        assert(0 <= dst[e as int] < n_nodes);
        let v: usize = dst_row[e] as usize;
        proof {
            lemma_fan_in_bounded(dst.take(e as int), v as int);
        }
        let n: u64 = counts[v] + 1;
        counts.set(v, n);
        e = e + 1;
    }
    assert(dst.take(e as int) =~= dst);
    let mut v: usize = 0;
    while v < n_nodes
        invariant
            v <= n_nodes,
            counts@.len() == n_nodes,
            forall|w: int| v <= w < n_nodes ==> #[trigger] counts@[w] == fan_in(dst, w),
            forall|w: int| 0 <= w < v ==> #[trigger] counts@[w] == divisor(fan_in(dst, w)),
        decreases n_nodes - v,
    {
        if counts[v] < 1 {
            counts.set(v, 1);
        }
        v = v + 1;
    }
    counts
}

/// Element `i` of a storage at single precision.
fn single_at<P: Precision>(s: &CpuStorage<P>, i: usize) -> (r: P::F32)
    requires
        is_float(s.spec_dtype()),
        i < s.spec_len(),
    ensures
        is_single(*s, i as int, r),
{
    match s {
        CpuStorage::BF16(v) => P::bf16_to_f32(v[i]),
        CpuStorage::F16(v) => P::f16_to_f32(v[i]),
        CpuStorage::F32(v) => v[i],
        CpuStorage::F64(v) => P::f64_to_f32(v[i]),
        _ => <P::F32>::zero(),
    }
}

/// Divides each row of `sum`, a matrix with `width` columns, by the divisor of its node.
fn divide_rows<P: Precision>(sum: &CpuStorage<P>, divisors: &Vec<u64>, width: usize) -> (r: Vec<
    P::F32,
>)
    requires
        is_float(sum.spec_dtype()),
        sum.spec_len() == divisors@.len() * width,
    ensures
        r@.len() == sum.spec_len(),
        forall|i: int|
            0 <= i < r@.len() ==> is_quotient(
                *sum,
                i,
                divisors@[i / width as int] as nat,
                #[trigger] r@[i],
            ),
{
    let n: usize = sum.len();
    let mut means: Vec<P::F32> = Vec::new();
    let mut i: usize = 0;
    while i < n
        invariant
            is_float(sum.spec_dtype()),
            n == sum.spec_len(),
            n == divisors@.len() * width,
            i <= n,
            means@.len() == i,
            forall|k: int|
                0 <= k < i ==> is_quotient(
                    *sum,
                    k,
                    divisors@[k / width as int] as nat,
                    #[trigger] means@[k],
                ),
        decreases n - i,
    {
        proof {
            lemma_row_of(i as int, divisors@.len() as int, width as int);
        }
        let x = single_at(sum, i);
        let y = P::divide(x, divisors[i / width]);
        means.push(y);
        assert(is_single(*sum, i as int, x));
        i = i + 1;
    }
    means
}

/// A position in a matrix with `n` rows of length `width` lies in one of the rows.
pub proof fn lemma_row_of(i: int, n: int, width: int)
    by (nonlinear_arith)
    requires
        0 <= i < n * width,
        0 <= n,
        0 <= width,
    ensures
        width > 0,
        0 <= i / width < n,
{
}

/// `mean` holds, at single precision, the rows of the matrix `sum`, each divided by the
/// number of edges to its node.
pub open spec fn divides_rows<P: Precision>(
    sum: Tensor<P>,
    edges: Tensor<P>,
    mean: Tensor<P>,
) -> bool {
    let n = sum.layout.dims@[0];
    let width = sum.layout.dims@[1];
    &&& is_matrix(mean.layout, n, width)
    &&& *mean.storage matches CpuStorage::F32(means) && is_mean(
        *sum.storage,
        node_row(edges, 1),
        width as int,
        means@,
    )
}

/// Divides each row of a matrix of sums by the number of edges to its node, at single
/// precision. Rows of nodes without an edge to them are divided by one.
pub fn divide_by_fan_in<P: Precision>(sum: &Tensor<P>, edge_index: &Tensor<P>) -> (r: Tensor<P>)
    requires
        sum.wf(),
        sum.layout.dims@.len() == 2,
        is_matrix(sum.layout, sum.layout.dims@[0], sum.layout.dims@[1]),
        (*sum.storage).spec_len() == sum.layout.dims@[0] * sum.layout.dims@[1],
        is_float((*sum.storage).spec_dtype()),
        edge_index.wf(),
        edge_index.layout.dims@.len() == 2,
        edge_index.layout.dims@[0] >= 2,
        is_integer((*edge_index.storage).spec_dtype()),
        all_below(node_row(*edge_index, 1), sum.layout.dims@[0] as int),
    ensures
        r.wf(),
        divides_rows(*sum, *edge_index, r),
{
    let n_nodes: usize = sum.layout.dims[0];
    let width: usize = sum.layout.dims[1];
    let dst_row = integer_row(edge_index, 1);
    assert(dst_row@ =~= node_row(*edge_index, 1));
    let counts = divisors(&dst_row, n_nodes);
    proof {
        (*sum.storage).lemma_len_fits();
    }
    let means = divide_rows(&*sum.storage, &counts, width);
    proof {
        assert forall|i: int| 0 <= i < means@.len() implies is_quotient(
            *sum.storage,
            i,
            divisor(fan_in(dst_row@, i / width as int)),
            #[trigger] means@[i],
        ) by {
            lemma_row_of(i, n_nodes as int, width as int);
            assert(counts@[i / width as int] == divisor(fan_in(dst_row@, i / width as int)));
        }
        assert(is_mean(*sum.storage, dst_row@, width as int, means@));
    }
    let layout = matrix_layout(n_nodes, width);
    Tensor { storage: std::sync::Arc::new(CpuStorage::F32(means)), layout }
}

/// `sum` meets what [`aggregate_sum`] promises of a sum over `n_nodes` nodes.
pub open spec fn is_aggregated<P: Precision>(
    features: Tensor<P>,
    edges: Tensor<P>,
    n_nodes: usize,
    sum: Tensor<P>,
) -> bool {
    &&& is_matrix(sum.layout, n_nodes, features.layout.dims@[1])
    &&& storage_collected(features, edges, n_nodes as int, *sum.storage)
}

/// Averages the features of the nodes with an edge to a node, at single precision:
/// what [`aggregate_sum`] returns, divided by [`divide_by_fan_in`].
pub fn aggregate_mean<P: Precision>(
    node_features: &Tensor<P>,
    edge_index: &Tensor<P>,
    n_nodes: usize,
) -> (r: Result<Tensor<P>, Error>)
    requires
        node_features.wf(),
        edge_index.wf(),
        aggregation_failure(*node_features, *edge_index, n_nodes, None) ==> n_nodes
            * node_features.layout.dims@[1] <= usize::MAX,
    ensures
        aggregation_failure(*node_features, *edge_index, n_nodes, failure(r)),
        r matches Ok(t) ==> {
            &&& t.wf()
            &&& is_matrix(t.layout, n_nodes, node_features.layout.dims@[1])
            &&& *t.storage is F32
            &&& exists|sum: Tensor<P>|
                {
                    &&& call_ensures(
                        aggregate_sum::<P>,
                        (node_features, edge_index, n_nodes),
                        Ok(sum),
                    )
                    &&& #[trigger] is_aggregated(*node_features, *edge_index, n_nodes, sum)
                    &&& divides_rows(sum, *edge_index, t)
                }
        },
{
    match aggregate_sum(node_features, edge_index, n_nodes) {
        Err(e) => Err(e),
        Ok(sum) => {
            assert(is_aggregated(*node_features, *edge_index, n_nodes, sum));
            Ok(divide_by_fan_in(&sum, edge_index))
        },
    }
}

/// A node without an edge to it collects zero, and that is divided by one.
pub proof fn law_isolated_node_stays_zero<T: Real>(
    feat: spec_fn(int) -> T,
    src: Seq<i64>,
    dst: Seq<i64>,
    v: int,
    r: T,
)
    requires
        fan_in(dst, v) == 0,
        collects(feat, src, dst, v, r),
    ensures
        is_zero(r),
        divisor(fan_in(dst, v)) == 1,
    decreases dst.len(),
{
    if dst.len() > 0 {
        law_isolated_node_stays_zero(feat, src.drop_last(), dst.drop_last(), v, r);
    }
}

/// A sum is divided by the number of edges to its node, and never by zero.
pub proof fn law_divisor_is_the_count(dst: Seq<i64>, v: int)
    ensures
        divisor(fan_in(dst, v)) >= 1,
        fan_in(dst, v) >= 1 ==> divisor(fan_in(dst, v)) == fan_in(dst, v),
{
}

/// Where an operation gives one result only, and zero is one only, a node collects one
/// value only.
pub proof fn law_node_collects_one_value<T: Real>(
    feat: spec_fn(int) -> T,
    src: Seq<i64>,
    dst: Seq<i64>,
    v: int,
    r1: T,
    r2: T,
)
    requires
        functional_sum::<T>(),
        collects(feat, src, dst, v, r1),
        collects(feat, src, dst, v, r2),
    ensures
        r1 == r2,
    decreases dst.len(),
{
    if dst.len() > 0 {
        let s = src.drop_last();
        let d = dst.drop_last();
        if dst.last() == v {
            let x = feat(src.last() as int);
            let b1 = choose|b: T| collects(feat, s, d, v, b) && #[trigger] combines(
                BinaryOp::Add,
                b,
                x,
                r1,
            );
            let b2 = choose|b: T| collects(feat, s, d, v, b) && #[trigger] combines(
                BinaryOp::Add,
                b,
                x,
                r2,
            );
            law_node_collects_one_value(feat, s, d, v, b1, b2);
        } else {
            law_node_collects_one_value(feat, s, d, v, r1, r2);
        }
    }
}

proof fn lemma_one_sum<T: Real>(
    features: Seq<T>,
    layout: Layout,
    width: int,
    src: Seq<i64>,
    dst: Seq<i64>,
    n: int,
    r1: Seq<T>,
    r2: Seq<T>,
)
    requires
        functional_sum::<T>(),
        is_collected(features, layout, width, src, dst, n, r1),
        is_collected(features, layout, width, src, dst, n, r2),
    ensures
        r1 == r2,
{
    assert forall|i: int| 0 <= i < r1.len() implies r1[i] == r2[i] by {
        law_node_collects_one_value(
            feature_column(features, layout, width, i % width),
            src,
            dst,
            i / width,
            r1[i],
            r2[i],
        );
    }
    assert(r1 =~= r2);
}

/// Additions in the type of the features give one result only, and zero is one only.
pub open spec fn one_sum<P: Precision>(features: Tensor<P>) -> bool {
    match *features.storage {
        CpuStorage::BF16(_) => functional_sum::<Bf16>(),
        CpuStorage::F16(_) => functional_sum::<P::F16>(),
        CpuStorage::F32(_) => functional_sum::<P::F32>(),
        CpuStorage::F64(_) => functional_sum::<P::F64>(),
        _ => false,
    }
}

/// The mean divides the sum: where additions give one result only, every sum over the
/// same features and edges, divided by the numbers of edges, is the same mean.
pub proof fn law_mean_divides_every_sum<P: Precision>(
    features: Tensor<P>,
    edges: Tensor<P>,
    n_nodes: usize,
    sum: Tensor<P>,
    other: Tensor<P>,
    mean: Tensor<P>,
)
    requires
        one_sum(features),
        is_aggregated(features, edges, n_nodes, sum),
        divides_rows(sum, edges, mean),
        is_aggregated(features, edges, n_nodes, other),
    ensures
        divides_rows(other, edges, mean),
{
    let l = features.layout;
    let w = l.dims@[1] as int;
    let n = n_nodes as int;
    let src = node_row(edges, 0);
    let dst = node_row(edges, 1);
    match (&*features.storage, &*sum.storage, &*other.storage, &*mean.storage) {
        (CpuStorage::BF16(f), CpuStorage::BF16(x), CpuStorage::BF16(y), CpuStorage::F32(m)) => {
            lemma_one_sum(f@, l, w, src, dst, n, x@, y@);
            lemma_same_mean(&*sum.storage, &*other.storage, dst, w, m@);
        },
        (CpuStorage::F16(f), CpuStorage::F16(x), CpuStorage::F16(y), CpuStorage::F32(m)) => {
            lemma_one_sum(f@, l, w, src, dst, n, x@, y@);
            lemma_same_mean(&*sum.storage, &*other.storage, dst, w, m@);
        },
        (CpuStorage::F32(f), CpuStorage::F32(x), CpuStorage::F32(y), CpuStorage::F32(m)) => {
            lemma_one_sum(f@, l, w, src, dst, n, x@, y@);
            lemma_same_mean(&*sum.storage, &*other.storage, dst, w, m@);
        },
        (CpuStorage::F64(f), CpuStorage::F64(x), CpuStorage::F64(y), CpuStorage::F32(m)) => {
            lemma_one_sum(f@, l, w, src, dst, n, x@, y@);
            lemma_same_mean(&*sum.storage, &*other.storage, dst, w, m@);
        },
        _ => {},
    }
}

proof fn lemma_same_mean<P: Precision>(
    sum: &CpuStorage<P>,
    other: &CpuStorage<P>,
    dst: Seq<i64>,
    width: int,
    means: Seq<P::F32>,
)
    requires
        is_mean(*sum, dst, width, means),
        sum.spec_len() == other.spec_len(),
        forall|i: int, x: P::F32| #[trigger] is_single(*sum, i, x) == is_single(*other, i, x),
    ensures
        is_mean(*other, dst, width, means),
{
    assert forall|i: int| 0 <= i < means.len() implies is_quotient(
        *other,
        i,
        divisor(fan_in(dst, i / width)),
        #[trigger] means[i],
    ) by {
        let c = divisor(fan_in(dst, i / width));
        assert(is_quotient(*sum, i, c, means[i]));
        let x = choose|x: P::F32| #[trigger]
            is_single(*sum, i, x) && call_ensures(P::divide, (x, c as u64), means[i]);
        assert(is_single(*other, i, x));
    }
}

/// Node numbers are the numbers that the storage holds at their places: `row` row strides
/// and `k` column strides from the start, whatever the integer type.
pub proof fn law_node_numbers_are_the_stored_numbers<P: Precision>(
    t: Tensor<P>,
    row: int,
    k: int,
)
    requires
        t.layout.dims@.len() == 2,
        t.layout.stride@.len() == 2,
        0 <= row < t.layout.dims@[0],
        0 <= k < t.layout.dims@[1],
    ensures
        node_row(t, row).len() == t.layout.dims@[1],
        *t.storage matches CpuStorage::U8(v) ==> node_row(t, row)[k] == v@[t.layout.start_offset
            + row * t.layout.stride@[0] + k * t.layout.stride@[1]],
        *t.storage matches CpuStorage::U32(v) ==> node_row(t, row)[k] == v@[t.layout.start_offset
            + row * t.layout.stride@[0] + k * t.layout.stride@[1]],
        *t.storage matches CpuStorage::I16(v) ==> node_row(t, row)[k] == v@[t.layout.start_offset
            + row * t.layout.stride@[0] + k * t.layout.stride@[1]],
        *t.storage matches CpuStorage::I32(v) ==> node_row(t, row)[k] == v@[t.layout.start_offset
            + row * t.layout.stride@[0] + k * t.layout.stride@[1]],
        *t.storage matches CpuStorage::I64(v) ==> node_row(t, row)[k] == v@[t.layout.start_offset
            + row * t.layout.stride@[0] + k * t.layout.stride@[1]],
{
    law_entry_is_the_stored_number(t, row, k);
}

/// The number of edges to a node is how often the node stands in the list of ends.
pub proof fn law_fan_in_is_the_multiplicity(dst: Seq<i64>, v: i64)
    ensures
        fan_in(dst, v as int) == dst.to_multiset().count(v),
    decreases dst.len(),
{
    broadcast use vstd::seq_lib::group_to_multiset_ensures;

    if dst.len() > 0 {
        law_fan_in_is_the_multiplicity(dst.drop_last(), v);
        assert(dst.drop_last().push(dst.last()) =~= dst);
    }
}

/// The numbers of edges to a node in two lists add up in the lists put together.
pub proof fn law_fan_in_adds_up(a: Seq<i64>, b: Seq<i64>, v: int)
    ensures
        fan_in(a + b, v) == fan_in(a, v) + fan_in(b, v),
    decreases b.len(),
{
    if b.len() == 0 {
        assert(a + b =~= a);
    } else {
        law_fan_in_adds_up(a, b.drop_last(), v);
        assert((a + b).drop_last() =~= a + b.drop_last());
    }
}

/// The number of edges to a node does not depend on their order.
pub proof fn law_fan_in_ignores_edge_order(a: Seq<i64>, b: Seq<i64>, v: i64)
    requires
        a.to_multiset() == b.to_multiset(),
    ensures
        fan_in(a, v as int) == fan_in(b, v as int),
{
    law_fan_in_is_the_multiplicity(a, v);
    law_fan_in_is_the_multiplicity(b, v);
}

/// The number of edges to a node is the length of the node's row in the matrix of the same
/// edge list.
pub proof fn law_fan_in_is_the_row_length(
    dst: Seq<i64>,
    dst32: Seq<i32>,
    n: int,
    row_ptr: Seq<i32>,
    v: int,
)
    requires
        dst.len() == dst32.len(),
        forall|k: int| 0 <= k < dst.len() ==> dst[k] == #[trigger] dst32[k],
        is_row_ptr(dst32, n, row_ptr),
        0 <= v < n,
    ensures
        fan_in(dst, v) == row_ptr[v + 1] - row_ptr[v],
{
    lemma_fan_in_is_in_degree(dst, dst32, v);
    law_rows_hold_in_degrees(dst32, v, v + 1);
    assert(row_ptr[v] == edges_below(dst32, v));
    assert(row_ptr[v + 1] == edges_below(dst32, v + 1));
}

proof fn lemma_fan_in_is_in_degree(dst: Seq<i64>, dst32: Seq<i32>, v: int)
    requires
        dst.len() == dst32.len(),
        forall|k: int| 0 <= k < dst.len() ==> dst[k] == #[trigger] dst32[k],
    ensures
        fan_in(dst, v) == in_degree(dst32, v),
    decreases dst.len(),
{
    if dst.len() > 0 {
        let d = dst32.drop_last();
        assert forall|k: int| 0 <= k < d.len() implies dst.drop_last()[k] == #[trigger] d[k] by {
            assert(d[k] == dst32[k]);
        }
        lemma_fan_in_is_in_degree(dst.drop_last(), d, v);
        assert(dst.last() == dst32[dst.len() - 1]);
    }
}

/// What a node collects grows by the feature of an edge's start with an edge to the node,
/// and stays with an edge to another node; without edges it is zero.
pub proof fn law_one_more_edge<T: Real>(
    feat: spec_fn(int) -> T,
    src: Seq<i64>,
    dst: Seq<i64>,
    u: i64,
    w: i64,
    v: int,
    r: T,
)
    ensures
        collects(feat, Seq::<i64>::empty(), Seq::<i64>::empty(), v, r) <==> call_ensures(
            T::zero,
            (),
            r,
        ),
        w != v ==> (collects(feat, src.push(u), dst.push(w), v, r) <==> collects(
            feat,
            src,
            dst,
            v,
            r,
        )),
        w == v ==> (collects(feat, src.push(u), dst.push(w), v, r) <==> exists|before: T|
            {
                &&& collects(feat, src, dst, v, before)
                &&& #[trigger] call_ensures(T::combine, (BinaryOp::Add, before, feat(u as int)), r)
            }),
{
    let (s, d) = (src.push(u), dst.push(w));
    assert(s.drop_last() =~= src);
    assert(d.drop_last() =~= dst);
    if w == v {
        if collects(feat, s, d, v, r) {
            let b = choose|b: T| collects(feat, s.drop_last(), d.drop_last(), v, b)
                && #[trigger] combines(BinaryOp::Add, b, feat(s.last() as int), r);
            assert(call_ensures(T::combine, (BinaryOp::Add, b, feat(u as int)), r));
        }
        if exists|before: T|
            {
                &&& collects(feat, src, dst, v, before)
                &&& #[trigger] call_ensures(T::combine, (BinaryOp::Add, before, feat(u as int)), r)
            } {
            let b = choose|b: T|
                {
                    &&& collects(feat, src, dst, v, b)
                    &&& #[trigger] call_ensures(T::combine, (BinaryOp::Add, b, feat(u as int)), r)
                };
            assert(combines(BinaryOp::Add, b, feat(s.last() as int), r));
        }
    }
}

/// Only the features of nodes that edges start from matter.
proof fn lemma_same_features<T: Real>(
    f: spec_fn(int) -> T,
    g: spec_fn(int) -> T,
    src: Seq<i64>,
    dst: Seq<i64>,
    v: int,
    r: T,
)
    requires
        src.len() == dst.len(),
        forall|k: int| 0 <= k < src.len() ==> f(#[trigger] src[k] as int) == g(src[k] as int),
        collects(f, src, dst, v, r),
    ensures
        collects(g, src, dst, v, r),
    decreases dst.len(),
{
    if dst.len() > 0 {
        let (s, d) = (src.drop_last(), dst.drop_last());
        assert forall|k: int| 0 <= k < s.len() implies f(#[trigger] s[k] as int) == g(
            s[k] as int,
        ) by {
            assert(s[k] == src[k]);
        }
        assert(src.last() == src[src.len() - 1]);
        if dst.last() == v {
            let b = choose|b: T| collects(f, s, d, v, b) && #[trigger] combines(
                BinaryOp::Add,
                b,
                f(src.last() as int),
                r,
            );
            lemma_same_features(f, g, s, d, v, b);
            assert(combines(BinaryOp::Add, b, g(src.last() as int), r));
        } else {
            lemma_same_features(f, g, s, d, v, r);
        }
    }
}

/// Row `v` and column `j` of `r`, a contiguous matrix with `n` rows and as many columns as
/// the features, collects over the edges from `u` to `v` the feature in row `u` and column
/// `j`: the element of the storage `u` row strides and `j` column strides from the start.
pub open spec fn sums_columns<T: Real>(
    f: Seq<T>,
    l: Layout,
    src: Seq<i64>,
    dst: Seq<i64>,
    n: int,
    r: Seq<T>,
) -> bool {
    &&& r.len() == n * l.dims@[1]
    &&& forall|v: int, j: int|
        0 <= v < n && 0 <= j < l.dims@[1] ==> collects(
            |u: int| f[l.start_offset + u * l.stride@[0] + j * l.stride@[1]],
            src,
            dst,
            v,
            #[trigger] r[v * l.dims@[1] + j],
        )
}

proof fn lemma_sums_columns<T: Real>(
    f: Seq<T>,
    l: Layout,
    src: Seq<i64>,
    dst: Seq<i64>,
    n: int,
    r: Seq<T>,
)
    requires
        l.dims@.len() == 2,
        l.stride@.len() == 2,
        src.len() == dst.len(),
        forall|k: int| 0 <= k < src.len() ==> 0 <= #[trigger] src[k] < l.dims@[0],
        is_collected(f, l, l.dims@[1] as int, src, dst, n, r),
    ensures
        sums_columns(f, l, src, dst, n, r),
{
    let w = l.dims@[1] as int;
    assert forall|v: int, j: int| 0 <= v < n && 0 <= j < w implies collects(
        |u: int| f[l.start_offset + u * l.stride@[0] + j * l.stride@[1]],
        src,
        dst,
        v,
        #[trigger] r[v * w + j],
    ) by {
        lemma_cell(v, w, j);
        lemma_cell_bound(v, n, w, j);
        let named = feature_column(f, l, w, j);
        let raw = |u: int| f[l.start_offset + u * l.stride@[0] + j * l.stride@[1]];
        assert(collects(named, src, dst, v, r[v * w + j]));
        assert forall|k: int| 0 <= k < src.len() implies named(#[trigger] src[k] as int) == raw(
            src[k] as int,
        ) by {
            law_matrix_positions(l, src[k] as int, j);
        }
        lemma_same_features(named, raw, src, dst, v, r[v * w + j]);
    }
}

/// The sum over the neighbours keeps rows and columns: row `v` and column `j` of the result
/// collect, over the edges from `u` to `v`, the feature in row `u` and column `j`.
pub proof fn law_sum_keeps_rows_and_columns<P: Precision>(
    features: Tensor<P>,
    edges: Tensor<P>,
    n_nodes: usize,
    sum: Tensor<P>,
)
    requires
        features.layout.dims@.len() == 2,
        features.layout.stride@.len() == 2,
        forall|k: int|
            0 <= k < node_row(edges, 0).len() ==> 0 <= #[trigger] node_row(edges, 0)[k]
                < features.layout.dims@[0],
        is_aggregated(features, edges, n_nodes, sum),
    ensures
        sum.layout.dims@ == seq![n_nodes, features.layout.dims@[1]],
        sum.layout.start_offset == 0,
        row_major(sum.layout.dims@, sum.layout.stride@),
        match *features.storage {
            CpuStorage::BF16(f) => *sum.storage matches CpuStorage::BF16(r) && sums_columns(
                f@,
                features.layout,
                node_row(edges, 0),
                node_row(edges, 1),
                n_nodes as int,
                r@,
            ),
            CpuStorage::F16(f) => *sum.storage matches CpuStorage::F16(r) && sums_columns(
                f@,
                features.layout,
                node_row(edges, 0),
                node_row(edges, 1),
                n_nodes as int,
                r@,
            ),
            CpuStorage::F32(f) => *sum.storage matches CpuStorage::F32(r) && sums_columns(
                f@,
                features.layout,
                node_row(edges, 0),
                node_row(edges, 1),
                n_nodes as int,
                r@,
            ),
            CpuStorage::F64(f) => *sum.storage matches CpuStorage::F64(r) && sums_columns(
                f@,
                features.layout,
                node_row(edges, 0),
                node_row(edges, 1),
                n_nodes as int,
                r@,
            ),
            _ => false,
        },
{
    let l = features.layout;
    let n = n_nodes as int;
    let src = node_row(edges, 0);
    let dst = node_row(edges, 1);
    match (&*features.storage, &*sum.storage) {
        (CpuStorage::BF16(f), CpuStorage::BF16(r)) => {
            lemma_sums_columns(f@, l, src, dst, n, r@);
        },
        (CpuStorage::F16(f), CpuStorage::F16(r)) => {
            lemma_sums_columns(f@, l, src, dst, n, r@);
        },
        (CpuStorage::F32(f), CpuStorage::F32(r)) => {
            lemma_sums_columns(f@, l, src, dst, n, r@);
        },
        (CpuStorage::F64(f), CpuStorage::F64(r)) => {
            lemma_sums_columns(f@, l, src, dst, n, r@);
        },
        _ => {},
    }
}

/// With a single edge, from `u` to `v`, row `v` of the sum is zero plus row `u` of the
/// features, column for column, and every other row is zero.
pub proof fn law_single_edge_copies_a_row<T: Real>(
    f: Seq<T>,
    l: Layout,
    u: i64,
    v: i64,
    n: int,
    r: Seq<T>,
    w: int,
    j: int,
)
    requires
        l.dims@.len() == 2,
        l.stride@.len() == 2,
        0 <= u < l.dims@[0],
        is_collected(f, l, l.dims@[1] as int, seq![u], seq![v], n, r),
        0 <= w < n,
        0 <= j < l.dims@[1],
    ensures
        w == v ==> exists|z: T|
            {
                &&& call_ensures(T::zero, (), z)
                &&& #[trigger] call_ensures(
                    T::combine,
                    (
                        BinaryOp::Add,
                        z,
                        f[l.start_offset + u * l.stride@[0] + j * l.stride@[1]],
                    ),
                    r[w * l.dims@[1] + j],
                )
            },
        w != v ==> call_ensures(T::zero, (), r[w * l.dims@[1] + j]),
{
    lemma_sums_columns(f, l, seq![u], seq![v], n, r);
    let feat = |x: int| f[l.start_offset + x * l.stride@[0] + j * l.stride@[1]];
    let x = r[w * l.dims@[1] + j];
    assert(collects(feat, seq![u], seq![v], w, x));
    let e = Seq::<i64>::empty();
    law_one_more_edge(feat, e, e, u, v, w, x);
    assert(e.push(u) =~= seq![u]);
    assert(e.push(v) =~= seq![v]);
    if w == v {
        let z = choose|z: T|
            {
                &&& collects(feat, e, e, w, z)
                &&& #[trigger] call_ensures(T::combine, (BinaryOp::Add, z, feat(u as int)), x)
            };
        law_one_more_edge(feat, e, e, u, v, w, z);
        assert(call_ensures(T::zero, (), z));
    }
}

/// Over contiguous features, where row `u` starts `u` widths from the start, column `j` of
/// row `v` of the sum collects exactly the elements `start + u * width + j`.
pub proof fn law_sum_over_contiguous_features<T: Real>(
    f: Seq<T>,
    l: Layout,
    src: Seq<i64>,
    dst: Seq<i64>,
    n: int,
    r: Seq<T>,
    v: int,
    j: int,
)
    requires
        l.dims@.len() == 2,
        row_major(l.dims@, l.stride@),
        src.len() == dst.len(),
        forall|k: int| 0 <= k < src.len() ==> 0 <= #[trigger] src[k] < l.dims@[0],
        is_collected(f, l, l.dims@[1] as int, src, dst, n, r),
        0 <= v < n,
        0 <= j < l.dims@[1],
    ensures
        r.len() == n * l.dims@[1],
        collects(
            |u: int| f[l.start_offset + u * l.dims@[1] + j],
            src,
            dst,
            v,
            r[v * l.dims@[1] + j],
        ),
{
    lemma_sums_columns(f, l, src, dst, n, r);
    let w = l.dims@[1] as int;
    let strided = |u: int| f[l.start_offset + u * l.stride@[0] + j * l.stride@[1]];
    let plain = |u: int| f[l.start_offset + u * w + j];
    assert(collects(strided, src, dst, v, r[v * w + j]));
    assert forall|k: int| 0 <= k < src.len() implies strided(#[trigger] src[k] as int) == plain(
        src[k] as int,
    ) by {
        law_matrix_positions(l, src[k] as int, j);
        law_contiguous_elements_follow(l, src[k] * w + j);
    }
    lemma_same_features(strided, plain, src, dst, v, r[v * w + j]);
}

/// Element `i` of `mean` is that of `sum` at single precision, divided by `times`, or by one
/// where `times` is zero.
pub open spec fn is_mean_at<P: Precision>(
    sum: CpuStorage<P>,
    times: nat,
    mean: CpuStorage<P>,
    i: int,
) -> bool {
    let c = if times == 0 {
        1
    } else {
        times
    };
    mean matches CpuStorage::F32(m) && c <= u64::MAX && match sum {
        CpuStorage::F32(x) => call_ensures(P::divide, (x@[i], c as u64), m@[i]),
        CpuStorage::BF16(x) => exists|y: P::F32|
            {
                &&& #[trigger] call_ensures(P::bf16_to_f32, (x@[i],), y)
                &&& call_ensures(P::divide, (y, c as u64), m@[i])
            },
        CpuStorage::F16(x) => exists|y: P::F32|
            {
                &&& #[trigger] call_ensures(P::f16_to_f32, (x@[i],), y)
                &&& call_ensures(P::divide, (y, c as u64), m@[i])
            },
        CpuStorage::F64(x) => exists|y: P::F32|
            {
                &&& #[trigger] call_ensures(P::f64_to_f32, (x@[i],), y)
                &&& call_ensures(P::divide, (y, c as u64), m@[i])
            },
        _ => false,
    }
}

/// Every element of the mean is the element of the sum in the same row and column, at
/// single precision, divided by how often the row's node stands in the list of ends, or by
/// one where it does not stand there.
pub proof fn law_mean_divides_by_the_multiplicity<P: Precision>(
    sum: Tensor<P>,
    edges: Tensor<P>,
    mean: Tensor<P>,
    v: i64,
    j: int,
)
    requires
        sum.layout.dims@.len() == 2,
        (*sum.storage).spec_len() == sum.layout.dims@[0] * sum.layout.dims@[1],
        divides_rows(sum, edges, mean),
        0 <= v < sum.layout.dims@[0],
        0 <= j < sum.layout.dims@[1],
    ensures
        mean.layout.dims@ == sum.layout.dims@,
        mean.layout.start_offset == 0,
        row_major(mean.layout.dims@, mean.layout.stride@),
        *mean.storage matches CpuStorage::F32(m) && m@.len() == sum.layout.dims@[0]
            * sum.layout.dims@[1],
        ({
            let i = v * sum.layout.dims@[1] + j;
            let times = node_row(edges, 1).to_multiset().count(v);
            let c = if times == 0 {
                1
            } else {
                times
            };
            *mean.storage matches CpuStorage::F32(m) && c <= u64::MAX && match *sum.storage {
                CpuStorage::F32(x) => call_ensures(P::divide, (x@[i], c as u64), m@[i]),
                CpuStorage::BF16(x) => exists|y: P::F32|
                    {
                        &&& #[trigger] call_ensures(P::bf16_to_f32, (x@[i],), y)
                        &&& call_ensures(P::divide, (y, c as u64), m@[i])
                    },
                CpuStorage::F16(x) => exists|y: P::F32|
                    {
                        &&& #[trigger] call_ensures(P::f16_to_f32, (x@[i],), y)
                        &&& call_ensures(P::divide, (y, c as u64), m@[i])
                    },
                CpuStorage::F64(x) => exists|y: P::F32|
                    {
                        &&& #[trigger] call_ensures(P::f64_to_f32, (x@[i],), y)
                        &&& call_ensures(P::divide, (y, c as u64), m@[i])
                    },
                _ => false,
            }
        }),
{
    let w = sum.layout.dims@[1] as int;
    let i = v * w + j;
    law_fan_in_is_the_multiplicity(node_row(edges, 1), v);
    lemma_cell(v as int, w, j);
    lemma_cell_bound(v as int, sum.layout.dims@[0] as int, w, j);
    assert(mean.layout.dims@ =~= sum.layout.dims@);
    match &*mean.storage {
        CpuStorage::F32(m) => {
            let c = divisor(fan_in(node_row(edges, 1), v as int));
            assert(is_quotient(*sum.storage, i, c, m@[i]));
            let y = choose|y: P::F32| #[trigger]
                is_single(*sum.storage, i, y) && call_ensures(P::divide, (y, c as u64), m@[i]);
            assert(call_ensures(P::divide, (y, c as u64), m@[i]));
        },
        _ => {},
    }
}

/// An aggregation succeeds exactly if the edges are a matrix with at least two rows of
/// integers, the features a floating-point matrix, every edge starts from a row of the
/// features, and every edge ends at one of the nodes.
pub proof fn law_aggregation_succeeds_exactly<P: Precision>(
    features: Tensor<P>,
    edges: Tensor<P>,
    n_nodes: usize,
)
    ensures
        aggregation_failure(features, edges, n_nodes, None) <==> {
            let (s, f) = ((*edges.storage).spec_dtype(), (*features.storage).spec_dtype());
            &&& edges.layout.dims@.len() == 2
            &&& edges.layout.dims@[0] >= 2
            &&& features.layout.dims@.len() == 2
            &&& s == DType::U8 || s == DType::U32 || s == DType::I16 || s == DType::I32 || s
                == DType::I64
            &&& f == DType::BF16 || f == DType::F16 || f == DType::F32 || f == DType::F64
            &&& forall|k: int|
                0 <= k < edges.layout.dims@[1] ==> 0 <= #[trigger] node_row(edges, 0)[k]
                    < features.layout.dims@[0]
            &&& forall|k: int|
                0 <= k < edges.layout.dims@[1] ==> 0 <= #[trigger] node_row(edges, 1)[k] < n_nodes
        },
{
}

/// An aggregation is refused for the first of these that holds: the edges are no matrix,
/// they lack a row, the features are no matrix, the edges are no integers, an edge starts
/// beyond the features, the features are no floating-point numbers, an edge ends beyond the
/// nodes. Of several edges at fault the first is named.
pub proof fn law_aggregation_refusals<P: Precision>(
    features: Tensor<P>,
    edges: Tensor<P>,
    n_nodes: usize,
    e: Option<ErrorView>,
)
    requires
        aggregation_failure(features, edges, n_nodes, e),
    ensures
        ({
            let (d, f) = (edges.layout.dims@, features.layout.dims@);
            let (src, dst) = (node_row(edges, 0), node_row(edges, 1));
            let s = (*edges.storage).spec_dtype();
            let t = (*features.storage).spec_dtype();
            if d.len() != 2 {
                e == Some(ErrorView::UnexpectedRank { expected: 2, dims: d })
            } else if d[0] < 2 {
                e == Some(ErrorView::EdgeRow { row: d[0], dims: d })
            } else if f.len() != 2 {
                e == Some(ErrorView::UnexpectedRank { expected: 2, dims: f })
            } else if !(s == DType::U8 || s == DType::U32 || s == DType::I16 || s == DType::I32
                || s == DType::I64) {
                e == Some(ErrorView::UnsupportedDTypeForOp { dtype: s, op: "index-select"@ })
            } else if exists|k: int| 0 <= k < d[1] && !(0 <= #[trigger] src[k] < f[0]) {
                exists|k: int|
                    {
                        &&& 0 <= k < d[1]
                        &&& !(0 <= #[trigger] src[k] < f[0])
                        &&& forall|i: int| 0 <= i < k ==> 0 <= #[trigger] src[i] < f[0]
                        &&& e == Some(
                            ErrorView::InvalidIndex {
                                index: src[k] as usize,
                                size: f[0],
                                op: "index-select"@,
                            },
                        )
                    }
            } else if !(t == DType::BF16 || t == DType::F16 || t == DType::F32 || t == DType::F64) {
                e == Some(ErrorView::UnsupportedDTypeForOp { dtype: t, op: "gnn-scatter-add"@ })
            } else if exists|k: int| 0 <= k < d[1] && !(0 <= #[trigger] dst[k] < n_nodes) {
                exists|k: int|
                    {
                        &&& 0 <= k < d[1]
                        &&& !(0 <= #[trigger] dst[k] < n_nodes)
                        &&& forall|i: int| 0 <= i < k ==> 0 <= #[trigger] dst[i] < n_nodes
                        &&& e == Some(
                            ErrorView::InvalidIndex {
                                index: dst[k] as usize,
                                size: n_nodes,
                                op: "gnn-scatter-add"@,
                            },
                        )
                    }
            } else {
                e is None
            }
        }),
{
    let (src, dst) = (node_row(edges, 0), node_row(edges, 1));
    if form_failure(features, edges) is None {
        let rows = features.layout.dims@[0];
        if !all_below(src, rows as int) {
            lemma_first_named(src, rows, "index-select"@, e);
        } else if is_float((*features.storage).spec_dtype()) && !all_below(dst, n_nodes as int) {
            lemma_first_named(dst, n_nodes, "gnn-scatter-add"@, e);
        }
    }
}

proof fn lemma_first_named(row: Seq<i64>, size: usize, op: Seq<char>, e: Option<ErrorView>)
    requires
        names_first_beyond(row, size, op, e),
    ensures
        exists|k: int|
            {
                &&& 0 <= k < row.len()
                &&& !(0 <= #[trigger] row[k] < size)
                &&& forall|i: int| 0 <= i < k ==> 0 <= #[trigger] row[i] < size
                &&& e == Some(ErrorView::InvalidIndex { index: row[k] as usize, size, op })
            },
{
    let k = choose|k: int|
        #![trigger row[k]]
        {
            &&& 0 <= k < row.len()
            &&& !(0 <= row[k] < size)
            &&& all_below(row.take(k), size as int)
            &&& e == Some(ErrorView::InvalidIndex { index: row[k] as usize, size, op })
        };
    assert forall|i: int| 0 <= i < k implies 0 <= #[trigger] row[i] < size by {
        assert(row.take(k)[i] == row[i]);
    }
    assert(!(0 <= row[k] < size));
}

/// [`aggregate_sum`] gives a contiguous matrix with a row for each node, of the type of the
/// features, whose rows and columns are those of [`sums_columns`].
pub proof fn law_aggregate_sum_keeps_rows_and_columns<P: Precision>(
    features: Tensor<P>,
    edges: Tensor<P>,
    n_nodes: usize,
    sum: Tensor<P>,
)
    requires
        call_ensures(aggregate_sum::<P>, (&features, &edges, n_nodes), Ok(sum)),
        features.layout.stride@.len() == 2,
    ensures
        sum.layout.dims@ == seq![n_nodes, features.layout.dims@[1]],
        sum.layout.start_offset == 0,
        row_major(sum.layout.dims@, sum.layout.stride@),
        ({
            let l = features.layout;
            let (src, dst) = (node_row(edges, 0), node_row(edges, 1));
            match (*features.storage, *sum.storage) {
                (CpuStorage::BF16(f), CpuStorage::BF16(r)) => {
                    sums_columns(f@, l, src, dst, n_nodes as int, r@)
                },
                (CpuStorage::F16(f), CpuStorage::F16(r)) => {
                    sums_columns(f@, l, src, dst, n_nodes as int, r@)
                },
                (CpuStorage::F32(f), CpuStorage::F32(r)) => {
                    sums_columns(f@, l, src, dst, n_nodes as int, r@)
                },
                (CpuStorage::F64(f), CpuStorage::F64(r)) => {
                    sums_columns(f@, l, src, dst, n_nodes as int, r@)
                },
                _ => false,
            }
        }),
{
    assert(aggregation_failure(features, edges, n_nodes, None));
    law_aggregation_succeeds_exactly(features, edges, n_nodes);
    law_sum_keeps_rows_and_columns(features, edges, n_nodes, sum);
}

/// What [`aggregate_sum`] and [`aggregate_mean`] refuse, and in which order, is as
/// [`law_aggregation_refusals`] says; they refuse the same.
pub proof fn law_aggregations_refuse_the_same<P: Precision>(
    features: Tensor<P>,
    edges: Tensor<P>,
    n_nodes: usize,
    sum: Result<Tensor<P>, Error>,
    mean: Result<Tensor<P>, Error>,
)
    requires
        call_ensures(aggregate_sum::<P>, (&features, &edges, n_nodes), sum),
        call_ensures(aggregate_mean::<P>, (&features, &edges, n_nodes), mean),
    ensures
        aggregation_failure(features, edges, n_nodes, failure(sum)),
        aggregation_failure(features, edges, n_nodes, failure(mean)),
        sum is Ok <==> mean is Ok,
{
    if sum is Ok {
        law_aggregation_succeeds_exactly(features, edges, n_nodes);
        law_aggregation_refusals(features, edges, n_nodes, failure(mean));
    }
    if mean is Ok {
        law_aggregation_succeeds_exactly(features, edges, n_nodes);
        law_aggregation_refusals(features, edges, n_nodes, failure(sum));
    }
}

/// [`divide_by_fan_in`] gives a contiguous matrix of the same shape at single precision, and
/// divides every element of the row of a node by how often the node stands among the ends
/// of the edges, or by one where it does not stand there.
pub proof fn law_rows_are_divided_by_multiplicities<P: Precision>(
    sum: Tensor<P>,
    edges: Tensor<P>,
    mean: Tensor<P>,
    v: i64,
    j: int,
)
    requires
        call_ensures(divide_by_fan_in::<P>, (&sum, &edges), mean),
        sum.layout.dims@.len() == 2,
        (*sum.storage).spec_len() == sum.layout.dims@[0] * sum.layout.dims@[1],
        0 <= v < sum.layout.dims@[0],
        0 <= j < sum.layout.dims@[1],
    ensures
        mean.layout.dims@ == sum.layout.dims@,
        mean.layout.start_offset == 0,
        row_major(mean.layout.dims@, mean.layout.stride@),
        *mean.storage matches CpuStorage::F32(m) && m@.len() == sum.layout.dims@[0]
            * sum.layout.dims@[1],
        is_mean_at(
            *sum.storage,
            node_row(edges, 1).to_multiset().count(v),
            *mean.storage,
            v * sum.layout.dims@[1] + j,
        ),
{
    law_mean_divides_by_the_multiplicity(sum, edges, mean, v, j);
}

/// [`aggregate_mean`] divides what [`aggregate_sum`] gives: in row `v` and every column by
/// how often `v` stands among the ends of the edges, or by one where it does not stand
/// there.
pub proof fn law_mean_is_the_sum_over_the_multiplicity<P: Precision>(
    features: Tensor<P>,
    edges: Tensor<P>,
    n_nodes: usize,
    mean: Tensor<P>,
)
    requires
        call_ensures(aggregate_mean::<P>, (&features, &edges, n_nodes), Ok(mean)),
        features.layout.dims@.len() == 2,
    ensures
        mean.layout.dims@ == seq![n_nodes, features.layout.dims@[1]],
        mean.layout.start_offset == 0,
        row_major(mean.layout.dims@, mean.layout.stride@),
        *mean.storage matches CpuStorage::F32(m) && m@.len() == n_nodes
            * features.layout.dims@[1],
        exists|sum: Tensor<P>|
            {
                &&& #[trigger] call_ensures(
                    aggregate_sum::<P>,
                    (&features, &edges, n_nodes),
                    Ok(sum),
                )
                &&& forall|v: i64, j: int|
                    0 <= v < n_nodes && 0 <= j < features.layout.dims@[1] ==> #[trigger] is_mean_at(
                        *sum.storage,
                        node_row(edges, 1).to_multiset().count(v),
                        *mean.storage,
                        v * features.layout.dims@[1] + j,
                    )
            },
{
    let sum = choose|sum: Tensor<P>|
        {
            &&& call_ensures(aggregate_sum::<P>, (&features, &edges, n_nodes), Ok(sum))
            &&& #[trigger] is_aggregated(features, edges, n_nodes, sum)
            &&& divides_rows(sum, edges, mean)
        };
    assert(call_ensures(aggregate_sum::<P>, (&features, &edges, n_nodes), Ok(sum)));
    let w = features.layout.dims@[1];
    assert(sum.layout.dims@ == seq![n_nodes, w]);
    assert forall|v: i64, j: int| 0 <= v < n_nodes && 0 <= j < w implies #[trigger] is_mean_at(
        *sum.storage,
        node_row(edges, 1).to_multiset().count(v),
        *mean.storage,
        v * w + j,
    ) by {
        law_mean_divides_by_the_multiplicity(sum, edges, mean, v, j);
    }
}

/// `r` is zero with `x` added to it.
pub open spec fn is_zero_plus<T: Real>(x: T, r: T) -> bool {
    exists|z: T|
        {
            &&& call_ensures(T::zero, (), z)
            &&& #[trigger] call_ensures(T::combine, (BinaryOp::Add, z, x), r)
        }
}

/// Over a single edge, from `u` to `v`, [`aggregate_sum`] gives in row `v` zero plus row `u`
/// of the features, column for column, and zeros in every other row.
pub proof fn law_aggregate_sum_of_one_edge<P: Precision>(
    features: Tensor<P>,
    edges: Tensor<P>,
    n_nodes: usize,
    sum: Tensor<P>,
    u: i64,
    v: i64,
    w: int,
    j: int,
)
    requires
        call_ensures(aggregate_sum::<P>, (&features, &edges, n_nodes), Ok(sum)),
        features.layout.stride@.len() == 2,
        node_row(edges, 0) == seq![u],
        node_row(edges, 1) == seq![v],
        0 <= w < n_nodes,
        0 <= j < features.layout.dims@[1],
    ensures
        0 <= u < features.layout.dims@[0],
        0 <= v < n_nodes,
        ({
            let l = features.layout;
            let i = l.start_offset + u * l.stride@[0] + j * l.stride@[1];
            let k = w * l.dims@[1] + j;
            match (*features.storage, *sum.storage) {
                (CpuStorage::BF16(f), CpuStorage::BF16(r)) => {
                    &&& w == v ==> is_zero_plus(f@[i], r@[k])
                    &&& w != v ==> call_ensures(<Bf16 as Real>::zero, (), r@[k])
                },
                (CpuStorage::F16(f), CpuStorage::F16(r)) => {
                    &&& w == v ==> is_zero_plus(f@[i], r@[k])
                    &&& w != v ==> call_ensures(<P::F16 as Real>::zero, (), r@[k])
                },
                (CpuStorage::F32(f), CpuStorage::F32(r)) => {
                    &&& w == v ==> is_zero_plus(f@[i], r@[k])
                    &&& w != v ==> call_ensures(<P::F32 as Real>::zero, (), r@[k])
                },
                (CpuStorage::F64(f), CpuStorage::F64(r)) => {
                    &&& w == v ==> is_zero_plus(f@[i], r@[k])
                    &&& w != v ==> call_ensures(<P::F64 as Real>::zero, (), r@[k])
                },
                _ => false,
            }
        }),
{
    law_aggregation_succeeds_exactly(features, edges, n_nodes);
    assert(0 <= node_row(edges, 0)[0] < features.layout.dims@[0]);
    assert(0 <= node_row(edges, 1)[0] < n_nodes);
    let l = features.layout;
    let n = n_nodes as int;
    match (&*features.storage, &*sum.storage) {
        (CpuStorage::BF16(f), CpuStorage::BF16(r)) => {
            law_single_edge_copies_a_row(f@, l, u, v, n, r@, w, j);
        },
        (CpuStorage::F16(f), CpuStorage::F16(r)) => {
            law_single_edge_copies_a_row(f@, l, u, v, n, r@, w, j);
        },
        (CpuStorage::F32(f), CpuStorage::F32(r)) => {
            law_single_edge_copies_a_row(f@, l, u, v, n, r@, w, j);
        },
        (CpuStorage::F64(f), CpuStorage::F64(r)) => {
            law_single_edge_copies_a_row(f@, l, u, v, n, r@, w, j);
        },
        _ => {},
    }
}

} // verus!
