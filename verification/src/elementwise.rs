//! Arithmetic that allocates its result, and what ties the in-place and the fused
//! operations to it.

use std::sync::Arc;

use vstd::prelude::*;

use crate::bfloat::Bf16;
use crate::dtype::DType;
use crate::element::{
    combines, functional, law_integers_are_functional, law_rectification, one_rectified_sum,
    one_result, rectified, rectified_sum, rectify, BinaryOp, Element, Real,
};
use crate::error::{failure, Error, ErrorView};
use crate::inplace_ops::{
    add_relu_done, copy_dims, in_place_done, is_float, is_new, is_rectified_sum, kernel_takes,
    law_in_place_is_elementwise, Tensor,
};
use crate::layout::{
    law_contiguous_elements_follow, lemma_offset_within_span, lemma_row_major_span, row_major,
    same_dims, Layout,
};
use crate::storage::{range_combined, CpuStorage, Precision};

verus! {

/// `result` holds what `op` gives on the elements of `a` that `a_l` covers and those
/// of `b` that `b_l` covers, in row-major order.
pub open spec fn is_combined<T: Element>(
    op: BinaryOp,
    a: Seq<T>,
    a_l: Layout,
    b: Seq<T>,
    b_l: Layout,
    result: Seq<T>,
) -> bool {
    &&& result.len() == a_l.count()
    &&& forall|k: int|
        0 <= k < result.len() ==> combines(
            op,
            a[a_l.position(k)],
            b[b_l.position(k)],
            #[trigger] result[k],
        )
}

/// `result` holds the elements of `a` that `a_l` covers, in row-major order, with zero
/// in the place of each that is not greater than zero.
pub open spec fn is_rectified<T: Real>(a: Seq<T>, a_l: Layout, result: Seq<T>) -> bool {
    &&& result.len() == a_l.count()
    &&& forall|k: int|
        0 <= k < result.len() ==> rectified(a[a_l.position(k)], #[trigger] result[k])
}

/// `t` is a new tensor that holds what `op` gives on the elements of `a` and `b`.
pub open spec fn combined_done<P: Precision>(
    op: BinaryOp,
    a: Tensor<P>,
    b: Tensor<P>,
    t: Tensor<P>,
) -> bool {
    &&& is_new(t.layout, a.layout.dims@)
    &&& match (*a.storage, *b.storage, *t.storage) {
        (CpuStorage::BF16(x), CpuStorage::BF16(y), CpuStorage::BF16(r)) => is_combined(
            op,
            x@,
            a.layout,
            y@,
            b.layout,
            r@,
        ),
        (CpuStorage::F16(x), CpuStorage::F16(y), CpuStorage::F16(r)) => is_combined(
            op,
            x@,
            a.layout,
            y@,
            b.layout,
            r@,
        ),
        (CpuStorage::F32(x), CpuStorage::F32(y), CpuStorage::F32(r)) => is_combined(
            op,
            x@,
            a.layout,
            y@,
            b.layout,
            r@,
        ),
        (CpuStorage::F64(x), CpuStorage::F64(y), CpuStorage::F64(r)) => is_combined(
            op,
            x@,
            a.layout,
            y@,
            b.layout,
            r@,
        ),
        (CpuStorage::U8(x), CpuStorage::U8(y), CpuStorage::U8(r)) => is_combined(
            op,
            x@,
            a.layout,
            y@,
            b.layout,
            r@,
        ),
        (CpuStorage::U32(x), CpuStorage::U32(y), CpuStorage::U32(r)) => is_combined(
            op,
            x@,
            a.layout,
            y@,
            b.layout,
            r@,
        ),
        (CpuStorage::I64(x), CpuStorage::I64(y), CpuStorage::I64(r)) => is_combined(
            op,
            x@,
            a.layout,
            y@,
            b.layout,
            r@,
        ),
        _ => false,
    }
}

/// `t` is a new tensor that holds the elements of `a`, with zero in the place of each
/// that is not greater than zero.
pub open spec fn relu_done<P: Precision>(a: Tensor<P>, t: Tensor<P>) -> bool {
    &&& is_new(t.layout, a.layout.dims@)
    &&& match (*a.storage, *t.storage) {
        (CpuStorage::BF16(x), CpuStorage::BF16(r)) => is_rectified(x@, a.layout, r@),
        (CpuStorage::F16(x), CpuStorage::F16(r)) => is_rectified(x@, a.layout, r@),
        (CpuStorage::F32(x), CpuStorage::F32(r)) => is_rectified(x@, a.layout, r@),
        (CpuStorage::F64(x), CpuStorage::F64(r)) => is_rectified(x@, a.layout, r@),
        _ => false,
    }
}

/// Why an operation that allocates its result is refused, if it is: the operands
/// differ in shape or in type, or the type has no arithmetic.
pub open spec fn binary_failure<P: Precision>(op: BinaryOp, a: Tensor<P>, b: Tensor<P>) -> Option<
    ErrorView,
> {
    let lhs = (*a.storage).spec_dtype();
    let rhs = (*b.storage).spec_dtype();
    if a.layout.dims@ != b.layout.dims@ {
        Some(
            ErrorView::ShapeMismatchBinaryOp {
                lhs: a.layout.dims@,
                rhs: b.layout.dims@,
                op: op.spec_name()@,
            },
        )
    } else if lhs != rhs {
        Some(ErrorView::DTypeMismatchBinaryOp { left: lhs, right: rhs, op: op.spec_name()@ })
    } else if !kernel_takes(lhs) {
        Some(ErrorView::UnsupportedDTypeForOp { dtype: lhs, op: op.spec_name()@ })
    } else {
        None
    }
}

/// Applies `op` to the elements that the two layouts cover.
fn combined_map<T: Element>(op: BinaryOp, a: &Vec<T>, a_l: &Layout, b: &Vec<T>, b_l: &Layout) -> (r:
    Vec<T>)
    requires
        a_l.wf(),
        b_l.wf(),
        a_l.fits(a@.len()),
        b_l.fits(b@.len()),
        a_l.dims@ == b_l.dims@,
    ensures
        is_combined(op, a@, *a_l, b@, *b_l, r@),
{
    let n: usize = a_l.elem_count();
    let mut result: Vec<T> = Vec::new();
    let mut k: usize = 0;
    while k < n
        invariant
            a_l.wf(),
            b_l.wf(),
            a_l.fits(a@.len()),
            b_l.fits(b@.len()),
            a_l.dims@ == b_l.dims@,
            n == a_l.count(),
            k <= n,
            result@.len() == k,
            forall|j: int|
                0 <= j < k ==> combines(
                    op,
                    a@[a_l.position(j)],
                    b@[b_l.position(j)],
                    #[trigger] result@[j],
                ),
        decreases n - k,
    {
        proof {
            assert(a.len() == a@.len() && b.len() == b@.len());
            lemma_offset_within_span(a_l.dims@, a_l.stride@, k as int);
            lemma_offset_within_span(b_l.dims@, b_l.stride@, k as int);
        }
        let i: usize = a_l.offset(k);
        let j: usize = b_l.offset(k);
        let x = T::combine(op, a[i], b[j]);
        assert(combines(op, a@[i as int], b@[j as int], x));
        result.push(x);
        k = k + 1;
    }
    result
}

/// Rectifies the elements that the layout covers.
fn relu_map<T: Real>(a: &Vec<T>, a_l: &Layout) -> (r: Vec<T>)
    requires
        a_l.wf(),
        a_l.fits(a@.len()),
    ensures
        is_rectified(a@, *a_l, r@),
{
    let n: usize = a_l.elem_count();
    let mut result: Vec<T> = Vec::new();
    let mut k: usize = 0;
    while k < n
        invariant
            a_l.wf(),
            a_l.fits(a@.len()),
            n == a_l.count(),
            k <= n,
            result@.len() == k,
            forall|j: int|
                0 <= j < k ==> rectified(a@[a_l.position(j)], #[trigger] result@[j]),
        decreases n - k,
    {
        proof {
            assert(a.len() == a@.len());
            lemma_offset_within_span(a_l.dims@, a_l.stride@, k as int);
        }
        let i: usize = a_l.offset(k);
        result.push(rectify(a[i]));
        k = k + 1;
    }
    result
}

impl<P: Precision> Tensor<P> {
    /// A new tensor with what `op` gives on the elements of `self` and `rhs`.
    fn binary(&self, rhs: &Tensor<P>, op: BinaryOp) -> (r: Result<Tensor<P>, Error>)
        requires
            self.wf(),
            rhs.wf(),
        ensures
            failure(r) == binary_failure(op, *self, *rhs),
            r matches Ok(t) ==> t.wf() && combined_done(op, *self, *rhs, t),
    {
        if !same_dims(&self.layout.dims, &rhs.layout.dims) {
            return Err(
                Error::ShapeMismatchBinaryOp {
                    lhs: copy_dims(&self.layout.dims),
                    rhs: copy_dims(&rhs.layout.dims),
                    op: op.name(),
                },
            );
        }
        let a = &self.layout;
        let b = &rhs.layout;
        let storage = match (&*self.storage, &*rhs.storage) {
            (CpuStorage::BF16(x), CpuStorage::BF16(y)) => {
                CpuStorage::BF16(combined_map(op, x, a, y, b))
            },
            (CpuStorage::F16(x), CpuStorage::F16(y)) => {
                CpuStorage::F16(combined_map(op, x, a, y, b))
            },
            (CpuStorage::F32(x), CpuStorage::F32(y)) => {
                CpuStorage::F32(combined_map(op, x, a, y, b))
            },
            (CpuStorage::F64(x), CpuStorage::F64(y)) => {
                CpuStorage::F64(combined_map(op, x, a, y, b))
            },
            (CpuStorage::U8(x), CpuStorage::U8(y)) => {
                CpuStorage::U8(combined_map(op, x, a, y, b))
            },
            (CpuStorage::U32(x), CpuStorage::U32(y)) => {
                CpuStorage::U32(combined_map(op, x, a, y, b))
            },
            (CpuStorage::I64(x), CpuStorage::I64(y)) => {
                CpuStorage::I64(combined_map(op, x, a, y, b))
            },
            (x, y) => {
                let lhs: DType = x.dtype();
                let rhs: DType = y.dtype();
                return if lhs == rhs {
                    Err(Error::UnsupportedDTypeForOp { dtype: lhs, op: op.name() })
                } else {
                    Err(Error::DTypeMismatchBinaryOp { left: lhs, right: rhs, op: op.name() })
                };
            },
        };
        let layout = Layout::contiguous(copy_dims(&self.layout.dims));
        proof {
            if layout.count() > 0 {
                lemma_row_major_span(layout.dims@, layout.stride@);
            }
        }
        Ok(Tensor { storage: Arc::new(storage), layout })
    }

    /// The sums of the elements of `self` and `rhs`, in a new tensor.
    pub fn add(&self, rhs: &Tensor<P>) -> (r: Result<Tensor<P>, Error>)
        requires
            self.wf(),
            rhs.wf(),
        ensures
            failure(r) == binary_failure(BinaryOp::Add, *self, *rhs),
            r matches Ok(t) ==> t.wf() && combined_done(BinaryOp::Add, *self, *rhs, t),
    {
        self.binary(rhs, BinaryOp::Add)
    }

    /// The differences of the elements of `self` and `rhs`, in a new tensor.
    pub fn sub(&self, rhs: &Tensor<P>) -> (r: Result<Tensor<P>, Error>)
        requires
            self.wf(),
            rhs.wf(),
        ensures
            failure(r) == binary_failure(BinaryOp::Sub, *self, *rhs),
            r matches Ok(t) ==> t.wf() && combined_done(BinaryOp::Sub, *self, *rhs, t),
    {
        self.binary(rhs, BinaryOp::Sub)
    }

    /// The products of the elements of `self` and `rhs`, in a new tensor.
    pub fn mul(&self, rhs: &Tensor<P>) -> (r: Result<Tensor<P>, Error>)
        requires
            self.wf(),
            rhs.wf(),
        ensures
            failure(r) == binary_failure(BinaryOp::Mul, *self, *rhs),
            r matches Ok(t) ==> t.wf() && combined_done(BinaryOp::Mul, *self, *rhs, t),
    {
        self.binary(rhs, BinaryOp::Mul)
    }

    /// The elements of a floating-point tensor, with zero in the place of each that is
    /// not greater than zero, in a new tensor.
    pub fn relu(&self) -> (r: Result<Tensor<P>, Error>)
        requires
            self.wf(),
        ensures
            failure(r) == (if is_float((*self.storage).spec_dtype()) {
                None
            } else {
                Some(
                    ErrorView::UnsupportedDTypeForOp {
                        dtype: (*self.storage).spec_dtype(),
                        op: "relu"@,
                    },
                )
            }),
            r matches Ok(t) ==> t.wf() && relu_done(*self, t),
    {
        let a = &self.layout;
        let storage = match &*self.storage {
            CpuStorage::BF16(x) => CpuStorage::BF16(relu_map(x, a)),
            CpuStorage::F16(x) => CpuStorage::F16(relu_map(x, a)),
            CpuStorage::F32(x) => CpuStorage::F32(relu_map(x, a)),
            CpuStorage::F64(x) => CpuStorage::F64(relu_map(x, a)),
            other => return Err(
                Error::UnsupportedDTypeForOp { dtype: other.dtype(), op: "relu" },
            ),
        };
        let layout = Layout::contiguous(copy_dims(&self.layout.dims));
        proof {
            if layout.count() > 0 {
                lemma_row_major_span(layout.dims@, layout.stride@);
            }
        }
        Ok(Tensor { storage: Arc::new(storage), layout })
    }
}

/// Two tensors hold the same elements in the same places, where `x` and `y` are their
/// storages and `x_l` and `y_l` their layouts.
pub open spec fn same_elements<T>(x: Seq<T>, x_l: Layout, y: Seq<T>, y_l: Layout) -> bool {
    &&& x_l.dims@ == y_l.dims@
    &&& forall|k: int|
        0 <= k < x_l.count() ==> #[trigger] x[x_l.position(k)] == y[y_l.position(k)]
}

/// Two tensors of brain floating-point numbers hold the same elements in the same
/// places, up to the choice among the patterns that are no number.
pub open spec fn same_brain_elements(
    x: Seq<Bf16>,
    x_l: Layout,
    y: Seq<Bf16>,
    y_l: Layout,
) -> bool {
    &&& x_l.dims@ == y_l.dims@
    &&& forall|k: int|
        0 <= k < x_l.count() ==> (#[trigger] x[x_l.position(k)])@ == y[y_l.position(k)]@
}

/// `x` and `y` are tensors of one shape, and hold the same element wherever `op` gives
/// one result only on the elements of `a` and `b` there.
pub open spec fn same_results<T: Element>(
    op: BinaryOp,
    a: Seq<T>,
    a_l: Layout,
    b: Seq<T>,
    b_l: Layout,
    x: Seq<T>,
    x_l: Layout,
    y: Seq<T>,
    y_l: Layout,
) -> bool {
    &&& x_l.dims@ == y_l.dims@
    &&& forall|k: int|
        0 <= k < x_l.count() && one_result(op, a[a_l.position(k)], b[b_l.position(k)])
            ==> #[trigger] x[x_l.position(k)] == y[y_l.position(k)]
}

/// `x` and `y` are tensors of one shape, and hold the same element wherever the rectified
/// sum of the elements of `a` and `b` there is one only.
pub open spec fn same_rectified_sums<T: Real>(
    a: Seq<T>,
    a_l: Layout,
    b: Seq<T>,
    b_l: Layout,
    x: Seq<T>,
    x_l: Layout,
    y: Seq<T>,
    y_l: Layout,
) -> bool {
    &&& x_l.dims@ == y_l.dims@
    &&& forall|k: int|
        0 <= k < x_l.count() && one_rectified_sum(a[a_l.position(k)], b[b_l.position(k)])
            ==> #[trigger] x[x_l.position(k)] == y[y_l.position(k)]
}

/// Two tensors that hold results of `op` on `a` and `b` agree: they are of one shape and
/// one type and hold the same elements. Of the types that the program supplies this
/// leaves out the places where the operation itself could give one of several results.
pub open spec fn results_agree<P: Precision>(
    op: BinaryOp,
    a: Tensor<P>,
    b: Tensor<P>,
    x: Tensor<P>,
    y: Tensor<P>,
) -> bool {
    let (al, bl, xl, yl) = (a.layout, b.layout, x.layout, y.layout);
    match (*a.storage, *b.storage, *x.storage, *y.storage) {
        (
            CpuStorage::BF16(_),
            CpuStorage::BF16(_),
            CpuStorage::BF16(r),
            CpuStorage::BF16(t),
        ) => same_brain_elements(r@, xl, t@, yl),
        (CpuStorage::F16(p), CpuStorage::F16(q), CpuStorage::F16(r), CpuStorage::F16(t)) => {
            same_results(op, p@, al, q@, bl, r@, xl, t@, yl)
        },
        (CpuStorage::F32(p), CpuStorage::F32(q), CpuStorage::F32(r), CpuStorage::F32(t)) => {
            same_results(op, p@, al, q@, bl, r@, xl, t@, yl)
        },
        (CpuStorage::F64(p), CpuStorage::F64(q), CpuStorage::F64(r), CpuStorage::F64(t)) => {
            same_results(op, p@, al, q@, bl, r@, xl, t@, yl)
        },
        (CpuStorage::U8(_), CpuStorage::U8(_), CpuStorage::U8(r), CpuStorage::U8(t)) => {
            same_elements(r@, xl, t@, yl)
        },
        (CpuStorage::U32(_), CpuStorage::U32(_), CpuStorage::U32(r), CpuStorage::U32(t)) => {
            same_elements(r@, xl, t@, yl)
        },
        (CpuStorage::I64(_), CpuStorage::I64(_), CpuStorage::I64(r), CpuStorage::I64(t)) => {
            same_elements(r@, xl, t@, yl)
        },
        _ => false,
    }
}

/// Two tensors that hold rectified sums of `a` and `b` agree: they are of one shape and
/// one type and hold the same elements. Of the types that the program supplies this
/// leaves out the places where the rectified sum itself could be one of several.
pub open spec fn rectified_sums_agree<P: Precision>(
    a: Tensor<P>,
    b: Tensor<P>,
    x: Tensor<P>,
    y: Tensor<P>,
) -> bool {
    let (al, bl, xl, yl) = (a.layout, b.layout, x.layout, y.layout);
    match (*a.storage, *b.storage, *x.storage, *y.storage) {
        (
            CpuStorage::BF16(_),
            CpuStorage::BF16(_),
            CpuStorage::BF16(r),
            CpuStorage::BF16(t),
        ) => same_brain_elements(r@, xl, t@, yl),
        (CpuStorage::F16(p), CpuStorage::F16(q), CpuStorage::F16(r), CpuStorage::F16(t)) => {
            same_rectified_sums(p@, al, q@, bl, r@, xl, t@, yl)
        },
        (CpuStorage::F32(p), CpuStorage::F32(q), CpuStorage::F32(r), CpuStorage::F32(t)) => {
            same_rectified_sums(p@, al, q@, bl, r@, xl, t@, yl)
        },
        (CpuStorage::F64(p), CpuStorage::F64(q), CpuStorage::F64(r), CpuStorage::F64(t)) => {
            same_rectified_sums(p@, al, q@, bl, r@, xl, t@, yl)
        },
        _ => false,
    }
}

proof fn lemma_in_place_element<T: Element>(
    op: BinaryOp,
    dst: Seq<T>,
    dst_l: Layout,
    src: Seq<T>,
    src_l: Layout,
    result: Seq<T>,
    new: Seq<T>,
    new_l: Layout,
    k: int,
)
    requires
        dst_l.dims@ == src_l.dims@,
        row_major(dst_l.dims@, dst_l.stride@),
        row_major(src_l.dims@, src_l.stride@),
        dst_l.fits(dst.len()),
        range_combined(
            op,
            dst,
            dst_l.start_offset as int,
            src,
            src_l.start_offset as int,
            dst_l.count() as int,
            result,
        ),
        is_new(new_l, dst_l.dims@),
        is_combined(op, dst, dst_l, src, src_l, new),
        0 <= k < dst_l.count(),
    ensures
        combines(op, dst[dst_l.position(k)], src[src_l.position(k)], result[dst_l.position(k)]),
        combines(op, dst[dst_l.position(k)], src[src_l.position(k)], new[new_l.position(k)]),
{
    law_in_place_is_elementwise(op, dst, dst_l, src, src_l, result, k);
    law_contiguous_elements_follow(new_l, k);
}

proof fn lemma_in_place_matches<T: Element>(
    op: BinaryOp,
    dst: Seq<T>,
    dst_l: Layout,
    src: Seq<T>,
    src_l: Layout,
    result: Seq<T>,
    new: Seq<T>,
    new_l: Layout,
)
    requires
        dst_l.dims@ == src_l.dims@,
        row_major(dst_l.dims@, dst_l.stride@),
        row_major(src_l.dims@, src_l.stride@),
        dst_l.fits(dst.len()),
        range_combined(
            op,
            dst,
            dst_l.start_offset as int,
            src,
            src_l.start_offset as int,
            dst_l.count() as int,
            result,
        ),
        is_new(new_l, dst_l.dims@),
        is_combined(op, dst, dst_l, src, src_l, new),
    ensures
        same_results(op, dst, dst_l, src, src_l, result, dst_l, new, new_l),
        functional::<T>() ==> same_elements(result, dst_l, new, new_l),
{
    assert forall|k: int|
        0 <= k < dst_l.count() && (functional::<T>() || one_result(
            op,
            dst[dst_l.position(k)],
            src[src_l.position(k)],
        )) implies #[trigger] result[dst_l.position(k)] == new[new_l.position(k)] by {
        lemma_in_place_element(op, dst, dst_l, src, src_l, result, new, new_l, k);
    }
}

proof fn lemma_brain_in_place_matches(
    op: BinaryOp,
    dst: Seq<Bf16>,
    dst_l: Layout,
    src: Seq<Bf16>,
    src_l: Layout,
    result: Seq<Bf16>,
    new: Seq<Bf16>,
    new_l: Layout,
)
    requires
        dst_l.dims@ == src_l.dims@,
        row_major(dst_l.dims@, dst_l.stride@),
        row_major(src_l.dims@, src_l.stride@),
        dst_l.fits(dst.len()),
        range_combined(
            op,
            dst,
            dst_l.start_offset as int,
            src,
            src_l.start_offset as int,
            dst_l.count() as int,
            result,
        ),
        is_new(new_l, dst_l.dims@),
        is_combined(op, dst, dst_l, src, src_l, new),
    ensures
        same_brain_elements(result, dst_l, new, new_l),
{
    assert forall|k: int| 0 <= k < dst_l.count() implies (#[trigger] result[dst_l.position(k)])@
        == new[new_l.position(k)]@ by {
        lemma_in_place_element(op, dst, dst_l, src, src_l, result, new, new_l, k);
    }
}

/// An in-place operation that succeeds leaves what the operation that allocates its
/// result gives on the same tensors.
pub proof fn law_in_place_matches_allocating<P: Precision>(
    op: BinaryOp,
    entry: Seq<char>,
    dst: Tensor<P>,
    src: Tensor<P>,
    result: Tensor<P>,
    r: Result<(), Error>,
    new: Tensor<P>,
)
    requires
        dst.wf(),
        in_place_done(op, entry, dst, src, result, r),
        r is Ok,
        combined_done(op, dst, src, new),
    ensures
        results_agree(op, dst, src, result, new),
{
    let (l, s, n) = (dst.layout, src.layout, new.layout);
    law_integers_are_functional();
    match (&*dst.storage, &*src.storage, &*result.storage, &*new.storage) {
        (CpuStorage::BF16(a), CpuStorage::BF16(b), CpuStorage::BF16(x), CpuStorage::BF16(y)) => {
            lemma_brain_in_place_matches(op, a@, l, b@, s, x@, y@, n);
        },
        (CpuStorage::F16(a), CpuStorage::F16(b), CpuStorage::F16(x), CpuStorage::F16(y)) => {
            lemma_in_place_matches(op, a@, l, b@, s, x@, y@, n);
        },
        (CpuStorage::F32(a), CpuStorage::F32(b), CpuStorage::F32(x), CpuStorage::F32(y)) => {
            lemma_in_place_matches(op, a@, l, b@, s, x@, y@, n);
        },
        (CpuStorage::F64(a), CpuStorage::F64(b), CpuStorage::F64(x), CpuStorage::F64(y)) => {
            lemma_in_place_matches(op, a@, l, b@, s, x@, y@, n);
        },
        (CpuStorage::U8(a), CpuStorage::U8(b), CpuStorage::U8(x), CpuStorage::U8(y)) => {
            lemma_in_place_matches(op, a@, l, b@, s, x@, y@, n);
        },
        (CpuStorage::U32(a), CpuStorage::U32(b), CpuStorage::U32(x), CpuStorage::U32(y)) => {
            lemma_in_place_matches(op, a@, l, b@, s, x@, y@, n);
        },
        (CpuStorage::I64(a), CpuStorage::I64(b), CpuStorage::I64(x), CpuStorage::I64(y)) => {
            lemma_in_place_matches(op, a@, l, b@, s, x@, y@, n);
        },
        _ => {},
    }
}

/// Two tensors are of one type and hold the same elements in the same places.
pub open spec fn holds_same<P: Precision>(x: Tensor<P>, y: Tensor<P>) -> bool {
    match (*x.storage, *y.storage) {
        (CpuStorage::BF16(a), CpuStorage::BF16(b)) => same_elements(a@, x.layout, b@, y.layout),
        (CpuStorage::F16(a), CpuStorage::F16(b)) => same_elements(a@, x.layout, b@, y.layout),
        (CpuStorage::F32(a), CpuStorage::F32(b)) => same_elements(a@, x.layout, b@, y.layout),
        (CpuStorage::F64(a), CpuStorage::F64(b)) => same_elements(a@, x.layout, b@, y.layout),
        (CpuStorage::U8(a), CpuStorage::U8(b)) => same_elements(a@, x.layout, b@, y.layout),
        (CpuStorage::U32(a), CpuStorage::U32(b)) => same_elements(a@, x.layout, b@, y.layout),
        (CpuStorage::I64(a), CpuStorage::I64(b)) => same_elements(a@, x.layout, b@, y.layout),
        _ => false,
    }
}

proof fn lemma_in_place_is_a_result<T: Element>(
    op: BinaryOp,
    dst: Seq<T>,
    dst_l: Layout,
    src: Seq<T>,
    src_l: Layout,
    result: Seq<T>,
    new: Seq<T>,
    new_l: Layout,
)
    requires
        dst_l.dims@ == src_l.dims@,
        row_major(dst_l.dims@, dst_l.stride@),
        row_major(src_l.dims@, src_l.stride@),
        dst_l.fits(dst.len()),
        range_combined(
            op,
            dst,
            dst_l.start_offset as int,
            src,
            src_l.start_offset as int,
            dst_l.count() as int,
            result,
        ),
        is_new(new_l, dst_l.dims@),
        new.len() == new_l.count(),
        same_elements(result, dst_l, new, new_l),
    ensures
        is_combined(op, dst, dst_l, src, src_l, new),
{
    assert forall|k: int| 0 <= k < new.len() implies combines(
        op,
        dst[dst_l.position(k)],
        src[src_l.position(k)],
        #[trigger] new[k],
    ) by {
        law_in_place_is_elementwise(op, dst, dst_l, src, src_l, result, k);
        law_contiguous_elements_follow(new_l, k);
        assert(result[dst_l.position(k)] == new[new_l.position(k)]);
    }
}

/// Whatever an in-place operation leaves is a result of the operation that allocates:
/// a new tensor that holds the same elements meets what that operation promises. This
/// holds of every type, also where an operation could give one of several results.
pub proof fn law_in_place_leaves_an_allocating_result<P: Precision>(
    op: BinaryOp,
    entry: Seq<char>,
    dst: Tensor<P>,
    src: Tensor<P>,
    result: Tensor<P>,
    r: Result<(), Error>,
    new: Tensor<P>,
)
    requires
        dst.wf(),
        in_place_done(op, entry, dst, src, result, r),
        r is Ok,
        is_new(new.layout, dst.layout.dims@),
        (*new.storage).spec_len() == new.layout.count(),
        holds_same(result, new),
    ensures
        combined_done(op, dst, src, new),
{
    let (l, s, n) = (dst.layout, src.layout, new.layout);
    match (&*dst.storage, &*src.storage, &*result.storage, &*new.storage) {
        (CpuStorage::BF16(a), CpuStorage::BF16(b), CpuStorage::BF16(x), CpuStorage::BF16(y)) => {
            lemma_in_place_is_a_result(op, a@, l, b@, s, x@, y@, n);
        },
        (CpuStorage::F16(a), CpuStorage::F16(b), CpuStorage::F16(x), CpuStorage::F16(y)) => {
            lemma_in_place_is_a_result(op, a@, l, b@, s, x@, y@, n);
        },
        (CpuStorage::F32(a), CpuStorage::F32(b), CpuStorage::F32(x), CpuStorage::F32(y)) => {
            lemma_in_place_is_a_result(op, a@, l, b@, s, x@, y@, n);
        },
        (CpuStorage::F64(a), CpuStorage::F64(b), CpuStorage::F64(x), CpuStorage::F64(y)) => {
            lemma_in_place_is_a_result(op, a@, l, b@, s, x@, y@, n);
        },
        (CpuStorage::U8(a), CpuStorage::U8(b), CpuStorage::U8(x), CpuStorage::U8(y)) => {
            lemma_in_place_is_a_result(op, a@, l, b@, s, x@, y@, n);
        },
        (CpuStorage::U32(a), CpuStorage::U32(b), CpuStorage::U32(x), CpuStorage::U32(y)) => {
            lemma_in_place_is_a_result(op, a@, l, b@, s, x@, y@, n);
        },
        (CpuStorage::I64(a), CpuStorage::I64(b), CpuStorage::I64(x), CpuStorage::I64(y)) => {
            lemma_in_place_is_a_result(op, a@, l, b@, s, x@, y@, n);
        },
        _ => {},
    }
}

proof fn lemma_fused_element<T: Real>(
    a: Seq<T>,
    a_l: Layout,
    b: Seq<T>,
    b_l: Layout,
    sum: Seq<T>,
    sum_l: Layout,
    relu: Seq<T>,
    relu_l: Layout,
    fused: Seq<T>,
    fused_l: Layout,
    k: int,
)
    requires
        is_new(sum_l, a_l.dims@),
        is_new(relu_l, a_l.dims@),
        is_new(fused_l, a_l.dims@),
        is_combined(BinaryOp::Add, a, a_l, b, b_l, sum),
        is_rectified(sum, sum_l, relu),
        is_rectified_sum(a, a_l, b, b_l, fused),
        0 <= k < a_l.count(),
    ensures
        combines(BinaryOp::Add, a[a_l.position(k)], b[b_l.position(k)], sum[k]),
        rectified(sum[k], relu[relu_l.position(k)]),
        rectified_sum(a[a_l.position(k)], b[b_l.position(k)], fused[fused_l.position(k)]),
{
    law_contiguous_elements_follow(sum_l, k);
    law_contiguous_elements_follow(relu_l, k);
    law_contiguous_elements_follow(fused_l, k);
    assert(combines(BinaryOp::Add, a[a_l.position(k)], b[b_l.position(k)], sum[k]));
    assert(rectified(sum[sum_l.position(k)], relu[k]));
    assert(rectified_sum(a[a_l.position(k)], b[b_l.position(k)], fused[k]));
}

proof fn lemma_fused_matches<T: Real>(
    a: Seq<T>,
    a_l: Layout,
    b: Seq<T>,
    b_l: Layout,
    sum: Seq<T>,
    sum_l: Layout,
    relu: Seq<T>,
    relu_l: Layout,
    fused: Seq<T>,
    fused_l: Layout,
)
    requires
        is_new(sum_l, a_l.dims@),
        is_new(relu_l, a_l.dims@),
        is_new(fused_l, a_l.dims@),
        is_combined(BinaryOp::Add, a, a_l, b, b_l, sum),
        is_rectified(sum, sum_l, relu),
        is_rectified_sum(a, a_l, b, b_l, fused),
    ensures
        same_rectified_sums(a, a_l, b, b_l, fused, fused_l, relu, relu_l),
{
    assert forall|k: int|
        0 <= k < fused_l.count() && one_rectified_sum(
            a[a_l.position(k)],
            b[b_l.position(k)],
        ) implies #[trigger] fused[fused_l.position(k)] == relu[relu_l.position(k)] by {
        lemma_fused_element(a, a_l, b, b_l, sum, sum_l, relu, relu_l, fused, fused_l, k);
        assert(rectified_sum(
            a[a_l.position(k)],
            b[b_l.position(k)],
            relu[relu_l.position(k)],
        ));
    }
}

proof fn lemma_brain_fused_matches(
    a: Seq<Bf16>,
    a_l: Layout,
    b: Seq<Bf16>,
    b_l: Layout,
    sum: Seq<Bf16>,
    sum_l: Layout,
    relu: Seq<Bf16>,
    relu_l: Layout,
    fused: Seq<Bf16>,
    fused_l: Layout,
)
    requires
        is_new(sum_l, a_l.dims@),
        is_new(relu_l, a_l.dims@),
        is_new(fused_l, a_l.dims@),
        is_combined(BinaryOp::Add, a, a_l, b, b_l, sum),
        is_rectified(sum, sum_l, relu),
        is_rectified_sum(a, a_l, b, b_l, fused),
    ensures
        same_brain_elements(fused, fused_l, relu, relu_l),
{
    assert forall|k: int| 0 <= k < fused_l.count() implies (#[trigger] fused[fused_l.position(k)])@
        == relu[relu_l.position(k)]@ by {
        lemma_fused_element(a, a_l, b, b_l, sum, sum_l, relu, relu_l, fused, fused_l, k);
    }
}

/// The fused operation gives what adding and then rectifying gives.
pub proof fn law_add_relu_matches_add_then_relu<P: Precision>(
    a: Tensor<P>,
    b: Tensor<P>,
    sum: Tensor<P>,
    relu: Tensor<P>,
    fused: Tensor<P>,
)
    requires
        combined_done(BinaryOp::Add, a, b, sum),
        relu_done(sum, relu),
        add_relu_done(a, b, fused),
    ensures
        rectified_sums_agree(a, b, fused, relu),
{
    let (al, bl, sl, fl, rl) = (a.layout, b.layout, sum.layout, fused.layout, relu.layout);
    match (&*a.storage, &*b.storage, &*sum.storage, &*relu.storage, &*fused.storage) {
        (
            CpuStorage::BF16(x),
            CpuStorage::BF16(y),
            CpuStorage::BF16(s),
            CpuStorage::BF16(r),
            CpuStorage::BF16(f),
        ) => lemma_brain_fused_matches(x@, al, y@, bl, s@, sl, r@, rl, f@, fl),
        (
            CpuStorage::F16(x),
            CpuStorage::F16(y),
            CpuStorage::F16(s),
            CpuStorage::F16(r),
            CpuStorage::F16(f),
        ) => lemma_fused_matches(x@, al, y@, bl, s@, sl, r@, rl, f@, fl),
        (
            CpuStorage::F32(x),
            CpuStorage::F32(y),
            CpuStorage::F32(s),
            CpuStorage::F32(r),
            CpuStorage::F32(f),
        ) => lemma_fused_matches(x@, al, y@, bl, s@, sl, r@, rl, f@, fl),
        (
            CpuStorage::F64(x),
            CpuStorage::F64(y),
            CpuStorage::F64(s),
            CpuStorage::F64(r),
            CpuStorage::F64(f),
        ) => lemma_fused_matches(x@, al, y@, bl, s@, sl, r@, rl, f@, fl),
        _ => {},
    }
}

/// Whatever the fused operation gives is a result of adding and then rectifying: there
/// are sums of the elements that it rectifies. This holds of every type, also where an
/// operation could give one of several results.
pub proof fn law_add_relu_rectifies_a_sum<T: Real>(
    a: Seq<T>,
    a_l: Layout,
    b: Seq<T>,
    b_l: Layout,
    fused: Seq<T>,
)
    requires
        is_rectified_sum(a, a_l, b, b_l, fused),
    ensures
        exists|sum: Seq<T>| #[trigger]
            is_combined(BinaryOp::Add, a, a_l, b, b_l, sum) && forall|k: int|
                0 <= k < fused.len() ==> rectified(sum[k], #[trigger] fused[k]),
{
    let sum = Seq::new(
        fused.len(),
        |k: int|
            choose|s: T| #[trigger]
                combines(BinaryOp::Add, a[a_l.position(k)], b[b_l.position(k)], s) && rectified(
                    s,
                    fused[k],
                ),
    );
    assert forall|k: int| 0 <= k < sum.len() implies combines(
        BinaryOp::Add,
        a[a_l.position(k)],
        b[b_l.position(k)],
        #[trigger] sum[k],
    ) && rectified(sum[k], fused[k]) by {
        assert(rectified_sum(a[a_l.position(k)], b[b_l.position(k)], fused[k]));
    }
    assert(is_combined(BinaryOp::Add, a, a_l, b, b_l, sum));
}

/// `r` is what the operation `op` that allocates its result returns on `a` and `b`.
pub open spec fn operation_returns<P: Precision>(
    op: BinaryOp,
    a: Tensor<P>,
    b: Tensor<P>,
    r: Result<Tensor<P>, Error>,
) -> bool {
    match op {
        BinaryOp::Add => call_ensures(Tensor::<P>::add, (&a, &b), r),
        BinaryOp::Sub => call_ensures(Tensor::<P>::sub, (&a, &b), r),
        BinaryOp::Mul => call_ensures(Tensor::<P>::mul, (&a, &b), r),
    }
}

/// An operation that allocates gives a new contiguous tensor of the same shape and type
/// whose element `k` is what the operation gives on the elements `k` of its operands.
pub proof fn law_operation_elements<P: Precision>(
    op: BinaryOp,
    a: Tensor<P>,
    b: Tensor<P>,
    t: Tensor<P>,
    k: int,
)
    requires
        operation_returns(op, a, b, Ok(t)),
        0 <= k < a.layout.count(),
    ensures
        a.layout.dims@ == b.layout.dims@,
        t.layout.dims@ == a.layout.dims@,
        t.layout.start_offset == 0,
        row_major(t.layout.dims@, t.layout.stride@),
        ({
            let (i, j) = (a.layout.position(k), b.layout.position(k));
            match (*a.storage, *b.storage, *t.storage) {
                (CpuStorage::BF16(x), CpuStorage::BF16(y), CpuStorage::BF16(r)) => {
                    r@.len() == a.layout.count() && call_ensures(
                        <Bf16 as Element>::combine,
                        (op, x@[i], y@[j]),
                        r@[k],
                    )
                },
                (CpuStorage::F16(x), CpuStorage::F16(y), CpuStorage::F16(r)) => {
                    r@.len() == a.layout.count() && call_ensures(
                        <P::F16 as Element>::combine,
                        (op, x@[i], y@[j]),
                        r@[k],
                    )
                },
                (CpuStorage::F32(x), CpuStorage::F32(y), CpuStorage::F32(r)) => {
                    r@.len() == a.layout.count() && call_ensures(
                        <P::F32 as Element>::combine,
                        (op, x@[i], y@[j]),
                        r@[k],
                    )
                },
                (CpuStorage::F64(x), CpuStorage::F64(y), CpuStorage::F64(r)) => {
                    r@.len() == a.layout.count() && call_ensures(
                        <P::F64 as Element>::combine,
                        (op, x@[i], y@[j]),
                        r@[k],
                    )
                },
                (CpuStorage::U8(x), CpuStorage::U8(y), CpuStorage::U8(r)) => {
                    r@.len() == a.layout.count() && call_ensures(
                        <u8 as Element>::combine,
                        (op, x@[i], y@[j]),
                        r@[k],
                    )
                },
                (CpuStorage::U32(x), CpuStorage::U32(y), CpuStorage::U32(r)) => {
                    r@.len() == a.layout.count() && call_ensures(
                        <u32 as Element>::combine,
                        (op, x@[i], y@[j]),
                        r@[k],
                    )
                },
                (CpuStorage::I64(x), CpuStorage::I64(y), CpuStorage::I64(r)) => {
                    r@.len() == a.layout.count() && call_ensures(
                        <i64 as Element>::combine,
                        (op, x@[i], y@[j]),
                        r@[k],
                    )
                },
                _ => false,
            }
        }),
{
}

/// An operation that allocates is refused for the first of these that holds: the shapes
/// differ, the types differ, the type has no arithmetic.
pub proof fn law_operation_refusals<P: Precision>(
    op: BinaryOp,
    a: Tensor<P>,
    b: Tensor<P>,
    x: DType,
    y: DType,
    r: Result<Tensor<P>, Error>,
)
    requires
        operation_returns(op, a, b, r),
        call_ensures(CpuStorage::<P>::dtype, (&*a.storage,), x),
        call_ensures(CpuStorage::<P>::dtype, (&*b.storage,), y),
    ensures
        ({
            let name = match op {
                BinaryOp::Add => "add"@,
                BinaryOp::Sub => "sub"@,
                BinaryOp::Mul => "mul"@,
            };
            if a.layout.dims@ != b.layout.dims@ {
                r matches Err(Error::ShapeMismatchBinaryOp { lhs, rhs, op: o }) && lhs@
                    == a.layout.dims@ && rhs@ == b.layout.dims@ && o@ == name
            } else if x != y {
                r matches Err(Error::DTypeMismatchBinaryOp { left, right, op: o }) && left == x
                    && right == y && o@ == name
            } else if x == DType::I16 || x == DType::I32 || x == DType::F8E4M3 || x
                == DType::F6E2M3 || x == DType::F6E3M2 || x == DType::F4 || x == DType::F8E8M0 {
                r matches Err(Error::UnsupportedDTypeForOp { dtype, op: o }) && dtype == x && o@
                    == name
            } else {
                r is Ok
            }
        }),
{
}

/// Rectifying gives a new contiguous tensor of the same shape and type whose element `k` is
/// element `k` where that is found greater than zero, and zero where it is not.
pub proof fn law_relu_elements<P: Precision>(a: Tensor<P>, t: Tensor<P>, k: int)
    requires
        call_ensures(Tensor::<P>::relu, (&a,), Ok(t)),
        0 <= k < a.layout.count(),
    ensures
        t.layout.dims@ == a.layout.dims@,
        t.layout.start_offset == 0,
        row_major(t.layout.dims@, t.layout.stride@),
        ({
            let i = a.layout.position(k);
            match (*a.storage, *t.storage) {
                (CpuStorage::BF16(x), CpuStorage::BF16(r)) => {
                    r@.len() == a.layout.count() && is_positive_part(x@[i], r@[k])
                },
                (CpuStorage::F16(x), CpuStorage::F16(r)) => {
                    r@.len() == a.layout.count() && is_positive_part(x@[i], r@[k])
                },
                (CpuStorage::F32(x), CpuStorage::F32(r)) => {
                    r@.len() == a.layout.count() && is_positive_part(x@[i], r@[k])
                },
                (CpuStorage::F64(x), CpuStorage::F64(r)) => {
                    r@.len() == a.layout.count() && is_positive_part(x@[i], r@[k])
                },
                _ => false,
            }
        }),
{
    let i = a.layout.position(k);
    match (&*a.storage, &*t.storage) {
        (CpuStorage::BF16(x), CpuStorage::BF16(r)) => {
            assert(rectified(x@[i], r@[k]));
            law_rectification(x@[i], x@[i], x@[i], r@[k]);
        },
        (CpuStorage::F16(x), CpuStorage::F16(r)) => {
            assert(rectified(x@[i], r@[k]));
            law_rectification(x@[i], x@[i], x@[i], r@[k]);
        },
        (CpuStorage::F32(x), CpuStorage::F32(r)) => {
            assert(rectified(x@[i], r@[k]));
            law_rectification(x@[i], x@[i], x@[i], r@[k]);
        },
        (CpuStorage::F64(x), CpuStorage::F64(r)) => {
            assert(rectified(x@[i], r@[k]));
            law_rectification(x@[i], x@[i], x@[i], r@[k]);
        },
        _ => {},
    }
}

/// `r` is `x` where that is found greater than zero, and zero where it is not.
pub open spec fn is_positive_part<T: Real>(x: T, r: T) -> bool {
    (call_ensures(T::is_positive, (x,), true) && r == x) || (call_ensures(
        T::is_positive,
        (x,),
        false,
    ) && call_ensures(T::zero, (), r))
}

/// Rectifying is refused exactly for tensors that are of no floating-point type.
pub proof fn law_relu_refusals<P: Precision>(
    a: Tensor<P>,
    x: DType,
    r: Result<Tensor<P>, Error>,
)
    requires
        call_ensures(Tensor::<P>::relu, (&a,), r),
        call_ensures(CpuStorage::<P>::dtype, (&*a.storage,), x),
    ensures
        if x == DType::BF16 || x == DType::F16 || x == DType::F32 || x == DType::F64 {
            r is Ok
        } else {
            r matches Err(Error::UnsupportedDTypeForOp { dtype, op }) && dtype == x && op@
                == "relu"@
        },
{
}

} // verus!
