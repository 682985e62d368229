//! In-place arithmetic on tensors and the fused rectified sum.

use std::sync::Arc;

use vstd::prelude::*;

use crate::dtype::DType;
use crate::element::{
    add_rectified, combines, law_rectification, law_sub_undoes_add_on_bytes,
    law_sub_undoes_add_on_long_integers, law_sub_undoes_add_on_words, rectified, rectified_sum,
    BinaryOp, Element, Real,
};
use crate::error::{failure, Error, ErrorView};
use crate::layout::{
    index_dot_stride, is_index, law_contiguous_elements_follow, law_element_lies_at_its_strides,
    lemma_offset_within_span, lemma_row_major_span, place_of, row_major, same_dims, Layout,
};
use crate::storage::{combine_range, range_combined, CpuStorage, Precision};

verus! {

/// The element types that the in-place kernels take.
pub open spec fn kernel_takes(t: DType) -> bool {
    t is BF16 || t is F16 || t is F32 || t is F64 || t is U8 || t is U32 || t is I64
}

/// The floating-point element types.
pub open spec fn is_float(t: DType) -> bool {
    t is BF16 || t is F16 || t is F32 || t is F64
}

/// `result` is `dst` with `op` applied to the `n` elements from `d` on, each with
/// its counterpart among the elements of `src` from `s` on.
pub open spec fn storage_combined<P: Precision>(
    op: BinaryOp,
    dst: CpuStorage<P>,
    d: int,
    src: CpuStorage<P>,
    s: int,
    n: int,
    result: CpuStorage<P>,
) -> bool {
    match (dst, src, result) {
        (CpuStorage::BF16(a), CpuStorage::BF16(b), CpuStorage::BF16(r)) => range_combined(
            op,
            a@,
            d,
            b@,
            s,
            n,
            r@,
        ),
        (CpuStorage::F16(a), CpuStorage::F16(b), CpuStorage::F16(r)) => range_combined(
            op,
            a@,
            d,
            b@,
            s,
            n,
            r@,
        ),
        (CpuStorage::F32(a), CpuStorage::F32(b), CpuStorage::F32(r)) => range_combined(
            op,
            a@,
            d,
            b@,
            s,
            n,
            r@,
        ),
        (CpuStorage::F64(a), CpuStorage::F64(b), CpuStorage::F64(r)) => range_combined(
            op,
            a@,
            d,
            b@,
            s,
            n,
            r@,
        ),
        (CpuStorage::U8(a), CpuStorage::U8(b), CpuStorage::U8(r)) => range_combined(
            op,
            a@,
            d,
            b@,
            s,
            n,
            r@,
        ),
        (CpuStorage::U32(a), CpuStorage::U32(b), CpuStorage::U32(r)) => range_combined(
            op,
            a@,
            d,
            b@,
            s,
            n,
            r@,
        ),
        (CpuStorage::I64(a), CpuStorage::I64(b), CpuStorage::I64(r)) => range_combined(
            op,
            a@,
            d,
            b@,
            s,
            n,
            r@,
        ),
        _ => false,
    }
}

/// Why an in-place kernel refuses its operands, if it does.
pub open spec fn kernel_failure<P: Precision>(
    op: BinaryOp,
    dst: CpuStorage<P>,
    dst_l: Layout,
    src: CpuStorage<P>,
    src_l: Layout,
) -> Option<ErrorView> {
    if !row_major(dst_l.dims@, dst_l.stride@) || !row_major(src_l.dims@, src_l.stride@) {
        Some(ErrorView::RequiresContiguous { op: op.spec_name()@ })
    } else if dst.spec_dtype() != src.spec_dtype() || !kernel_takes(dst.spec_dtype()) {
        Some(ErrorView::KernelDType { op: op.spec_name()@ })
    } else {
        None
    }
}

/// The smaller of two numbers.
pub open spec fn smaller(a: nat, b: nat) -> nat {
    if a < b {
        a
    } else {
        b
    }
}

/// The range of positions that a contiguous layout covers in a storage, and `None`
/// for any other layout.
fn contiguous_range<P: Precision>(l: &Layout, storage: &CpuStorage<P>) -> (r: Option<
    (usize, usize),
>)
    requires
        l.wf(),
        l.fits(storage.spec_len()),
    ensures
        match r {
            Some((from, to)) => {
                &&& row_major(l.dims@, l.stride@)
                &&& from == l.start_offset
                &&& to == l.start_offset + l.count()
                &&& to <= storage.spec_len()
            },
            None => !row_major(l.dims@, l.stride@),
        },
{
    proof {
        storage.lemma_len_fits();
        if row_major(l.dims@, l.stride@) && l.count() > 0 {
            lemma_row_major_span(l.dims@, l.stride@);
        }
    }
    l.contiguous_offsets()
}

impl<P: Precision> CpuStorage<P> {
    /// Runs an in-place kernel: `op` is applied to the elements of this storage
    /// that `dst_l` covers and those of `src` that `src_l` covers. Both layouts
    /// have to be contiguous and both storages of one type that the kernel takes.
    pub fn combine_in_place(
        &mut self,
        dst_l: &Layout,
        src: &CpuStorage<P>,
        src_l: &Layout,
        op: BinaryOp,
    ) -> (r: Result<(), Error>)
        requires
            dst_l.wf(),
            src_l.wf(),
            dst_l.fits(old(self).spec_len()),
            src_l.fits(src.spec_len()),
        ensures
            failure(r) == kernel_failure(op, *old(self), *dst_l, *src, *src_l),
            r is Err ==> *final(self) == *old(self),
            r is Ok ==> storage_combined(
                op,
                *old(self),
                dst_l.start_offset as int,
                *src,
                src_l.start_offset as int,
                smaller(dst_l.count(), src_l.count()) as int,
                *final(self),
            ),
            final(self).spec_len() == old(self).spec_len(),
            final(self).spec_dtype() == old(self).spec_dtype(),
    {
        let (d1, d2) = match contiguous_range(dst_l, self) {
            Some(range) => range,
            None => return Err(Error::RequiresContiguous { op: op.name() }),
        };
        let (s1, s2) = match contiguous_range(src_l, src) {
            Some(range) => range,
            None => return Err(Error::RequiresContiguous { op: op.name() }),
        };
        match self {
            CpuStorage::BF16(d) => match src {
                CpuStorage::BF16(s) => {
                    combine_range(op, d, d1, d2, s, s1, s2);
                    Ok(())
                },
                _ => Err(Error::KernelDType { op: op.name() }),
            },
            CpuStorage::F16(d) => match src {
                CpuStorage::F16(s) => {
                    combine_range(op, d, d1, d2, s, s1, s2);
                    Ok(())
                },
                _ => Err(Error::KernelDType { op: op.name() }),
            },
            CpuStorage::F32(d) => match src {
                CpuStorage::F32(s) => {
                    combine_range(op, d, d1, d2, s, s1, s2);
                    Ok(())
                },
                _ => Err(Error::KernelDType { op: op.name() }),
            },
            CpuStorage::F64(d) => match src {
                CpuStorage::F64(s) => {
                    combine_range(op, d, d1, d2, s, s1, s2);
                    Ok(())
                },
                _ => Err(Error::KernelDType { op: op.name() }),
            },
            CpuStorage::U8(d) => match src {
                CpuStorage::U8(s) => {
                    combine_range(op, d, d1, d2, s, s1, s2);
                    Ok(())
                },
                _ => Err(Error::KernelDType { op: op.name() }),
            },
            CpuStorage::U32(d) => match src {
                CpuStorage::U32(s) => {
                    combine_range(op, d, d1, d2, s, s1, s2);
                    Ok(())
                },
                _ => Err(Error::KernelDType { op: op.name() }),
            },
            CpuStorage::I64(d) => match src {
                CpuStorage::I64(s) => {
                    combine_range(op, d, d1, d2, s, s1, s2);
                    Ok(())
                },
                _ => Err(Error::KernelDType { op: op.name() }),
            },
            _ => Err(Error::KernelDType { op: op.name() }),
        }
    }
}

/// `result` holds the rectified sums of the elements of `a` that `a_l` covers and
/// those of `b` that `b_l` covers, in row-major order.
pub open spec fn is_rectified_sum<T: Real>(
    a: Seq<T>,
    a_l: Layout,
    b: Seq<T>,
    b_l: Layout,
    result: Seq<T>,
) -> bool {
    &&& result.len() == a_l.count()
    &&& forall|k: int|
        0 <= k < result.len() ==> rectified_sum(
            a[a_l.position(k)],
            b[b_l.position(k)],
            #[trigger] result[k],
        )
}

/// `result` holds the rectified sums of the elements of `a` that `a_l` covers and
/// those of `b` that `b_l` covers, in row-major order.
pub open spec fn storage_rectified_sum<P: Precision>(
    a: CpuStorage<P>,
    a_l: Layout,
    b: CpuStorage<P>,
    b_l: Layout,
    result: CpuStorage<P>,
) -> bool {
    match (a, b, result) {
        (CpuStorage::BF16(x), CpuStorage::BF16(y), CpuStorage::BF16(r)) => is_rectified_sum(
            x@,
            a_l,
            y@,
            b_l,
            r@,
        ),
        (CpuStorage::F16(x), CpuStorage::F16(y), CpuStorage::F16(r)) => is_rectified_sum(
            x@,
            a_l,
            y@,
            b_l,
            r@,
        ),
        (CpuStorage::F32(x), CpuStorage::F32(y), CpuStorage::F32(r)) => is_rectified_sum(
            x@,
            a_l,
            y@,
            b_l,
            r@,
        ),
        (CpuStorage::F64(x), CpuStorage::F64(y), CpuStorage::F64(r)) => is_rectified_sum(
            x@,
            a_l,
            y@,
            b_l,
            r@,
        ),
        _ => false,
    }
}

/// Forms the rectified sums of the elements of `a` that `a_l` covers and those of
/// `b` that `b_l` covers, in row-major order.
fn rectified_map<T: Real>(a: &Vec<T>, a_l: &Layout, b: &Vec<T>, b_l: &Layout) -> (r: Vec<T>)
    requires
        a_l.wf(),
        b_l.wf(),
        a_l.fits(a@.len()),
        b_l.fits(b@.len()),
        a_l.dims@ == b_l.dims@,
    ensures
        is_rectified_sum(a@, *a_l, b@, *b_l, r@),
{
    let n: usize = a_l.elem_count();
    let mut result: Vec<T> = Vec::new();
    let mut k: usize = 0;
    while k < n
        invariant
            a_l.wf(),
            b_l.wf(),
            a_l.fits(a@.len()),
            b_l.fits(b@.len()),
            a_l.dims@ == b_l.dims@,
            n == a_l.count(),
            k <= n,
            result@.len() == k,
            forall|j: int|
                0 <= j < k ==> rectified_sum(
                    a@[a_l.position(j)],
                    b@[b_l.position(j)],
                    #[trigger] result@[j],
                ),
        decreases n - k,
    {
        proof {
            assert(a.len() == a@.len() && b.len() == b@.len());
            lemma_offset_within_span(a_l.dims@, a_l.stride@, k as int);
            lemma_offset_within_span(b_l.dims@, b_l.stride@, k as int);
        }
        let i: usize = a_l.offset(k);
        let j: usize = b_l.offset(k);
        result.push(add_rectified(a[i], b[j]));
        k = k + 1;
    }
    result
}

impl<P: Precision> CpuStorage<P> {
    /// Forms the rectified sums of the elements that the two layouts cover. Both
    /// storages have to be of one floating-point type.
    pub fn add_relu(
        &self,
        self_l: &Layout,
        rhs: &CpuStorage<P>,
        rhs_l: &Layout,
    ) -> (r: Result<CpuStorage<P>, Error>)
        requires
            self_l.wf(),
            rhs_l.wf(),
            self_l.fits(self.spec_len()),
            rhs_l.fits(rhs.spec_len()),
            self_l.dims@ == rhs_l.dims@,
        ensures
            failure(r) == (if self.spec_dtype() == rhs.spec_dtype() && is_float(self.spec_dtype()) {
                None
            } else {
                Some(ErrorView::AddReluDType)
            }),
            r matches Ok(s) ==> storage_rectified_sum(*self, *self_l, *rhs, *rhs_l, s),
    {
        match (self, rhs) {
            (CpuStorage::BF16(a), CpuStorage::BF16(b)) => Ok(
                CpuStorage::BF16(rectified_map(a, self_l, b, rhs_l)),
            ),
            (CpuStorage::F16(a), CpuStorage::F16(b)) => Ok(
                CpuStorage::F16(rectified_map(a, self_l, b, rhs_l)),
            ),
            (CpuStorage::F32(a), CpuStorage::F32(b)) => Ok(
                CpuStorage::F32(rectified_map(a, self_l, b, rhs_l)),
            ),
            (CpuStorage::F64(a), CpuStorage::F64(b)) => Ok(
                CpuStorage::F64(rectified_map(a, self_l, b, rhs_l)),
            ),
            _ => Err(Error::AddReluDType),
        }
    }
}

/// A tensor: storage, which clones of the tensor share, and the layout of the
/// elements in it.
pub struct Tensor<P: Precision> {
    pub storage: Arc<CpuStorage<P>>,
    pub layout: Layout,
}

/// `Arc::get_mut`: gives access to the pointee where no other pointer shares it,
/// and `None` otherwise. Which of the two it is rests on what other pointers the
/// program holds at that moment, and is left open.
#[verifier::external_body]
fn arc_get_mut<T>(pointer: &mut Arc<T>) -> (r: Option<&mut T>)
    ensures
        match r {
            Some(pointee) => *pointee == **old(pointer) && **final(pointer) == *final(pointee),
            None => *final(pointer) == *old(pointer),
        },
{
    Arc::get_mut(pointer)
}

/// `Arc::clone`: another pointer to the same value.
#[verifier::external_body]
fn arc_clone<T>(pointer: &Arc<T>) -> (r: Arc<T>)
    ensures
        r == *pointer,
{
    Arc::clone(pointer)
}

/// Why a tensor may not be modified in place, if it may not.
pub open spec fn eligibility_failure(layout: Layout, op: Seq<char>, unique: bool) -> Option<
    ErrorView,
> {
    if !row_major(layout.dims@, layout.stride@) {
        Some(ErrorView::RequiresContiguous { op })
    } else if !unique {
        Some(ErrorView::SharedStorage { op })
    } else {
        None
    }
}

/// Why `op`, called under the name `entry`, is refused on the tensor with the
/// storage `dst` and the layout `dst_l` and on `src`, if it is, where `unique` says
/// whether no other tensor shares `dst`.
pub open spec fn in_place_failure<P: Precision>(
    op: BinaryOp,
    entry: Seq<char>,
    unique: bool,
    dst: CpuStorage<P>,
    dst_l: Layout,
    src: Tensor<P>,
) -> Option<ErrorView> {
    let eligibility = eligibility_failure(dst_l, entry, unique);
    if eligibility is Some {
        eligibility
    } else if dst_l.dims@ != src.layout.dims@ {
        Some(
            ErrorView::ShapeMismatchBinaryOp {
                lhs: dst_l.dims@,
                rhs: src.layout.dims@,
                op: entry,
            },
        )
    } else {
        kernel_failure(op, dst, dst_l, *src.storage, src.layout)
    }
}

/// `op`, called under the name `entry` on `dst` and `src`, returned `r` and left
/// `result` in the place of `dst`.
pub open spec fn in_place_done<P: Precision>(
    op: BinaryOp,
    entry: Seq<char>,
    dst: Tensor<P>,
    src: Tensor<P>,
    result: Tensor<P>,
    r: Result<(), Error>,
) -> bool {
    let unique = failure(r) != Some(ErrorView::SharedStorage { op: entry });
    &&& failure(r) == in_place_failure(op, entry, unique, *dst.storage, dst.layout, src)
    &&& result.layout == dst.layout
    &&& r is Err ==> result.storage == dst.storage
    &&& r is Ok ==> storage_combined(
        op,
        *dst.storage,
        dst.layout.start_offset as int,
        *src.storage,
        src.layout.start_offset as int,
        dst.layout.count() as int,
        *result.storage,
    )
}

/// `t` is a contiguous tensor that holds the rectified sums of the elements of `a` and `b`.
pub open spec fn add_relu_done<P: Precision>(a: Tensor<P>, b: Tensor<P>, t: Tensor<P>) -> bool {
    &&& is_new(t.layout, a.layout.dims@)
    &&& storage_rectified_sum(*a.storage, a.layout, *b.storage, b.layout, *t.storage)
}

/// `layout` is that of a contiguous tensor with these dimensions and a storage of its own.
pub open spec fn is_new(layout: Layout, dims: Seq<usize>) -> bool {
    &&& layout.dims@ == dims
    &&& row_major(layout.dims@, layout.stride@)
    &&& layout.start_offset == 0
}

impl<P: Precision> Clone for Tensor<P> {
    /// Another tensor that shares the storage of this one.
    fn clone(&self) -> (r: Tensor<P>)
        ensures
            r.storage == self.storage,
            r.layout.dims@ == self.layout.dims@,
            r.layout.stride@ == self.layout.stride@,
            r.layout.start_offset == self.layout.start_offset,
    {
        let r = Tensor {
            storage: arc_clone(&self.storage),
            layout: Layout {
                dims: self.layout.dims.clone(),
                stride: self.layout.stride.clone(),
                start_offset: self.layout.start_offset,
            },
        };
        assert(r.layout.dims@ =~= self.layout.dims@);
        assert(r.layout.stride@ =~= self.layout.stride@);
        r
    }
}

impl<P: Precision> Tensor<P> {
    /// The layout describes elements that lie in the storage.
    pub open spec fn wf(&self) -> bool {
        &&& self.layout.wf()
        &&& self.layout.fits((*self.storage).spec_len())
    }

    /// A tensor from its parts, unless the layout reaches beyond the storage.
    pub fn from_parts(storage: CpuStorage<P>, layout: Layout) -> (r: Option<Tensor<P>>)
        ensures
            match r {
                Some(t) => t.wf() && *t.storage == storage && t.layout == layout,
                None => !(layout.wf() && layout.fits(storage.spec_len())),
            },
    {
        if layout.describes(storage.len()) {
            Some(Tensor { storage: Arc::new(storage), layout })
        } else {
            None
        }
    }

    /// Refuses to modify a tensor in place that is not contiguous, or that is not
    /// the only one to hold its storage.
    pub fn assert_inplace_eligible(layout: &Layout, op: &'static str, unique: bool) -> (r: Result<
        (),
        Error,
    >)
        requires
            layout.wf(),
        ensures
            failure(r) == eligibility_failure(*layout, op@, unique),
    {
        if !layout.is_contiguous() {
            return Err(Error::RequiresContiguous { op });
        }
        if !unique {
            return Err(Error::SharedStorage { op });
        }
        Ok(())
    }

    /// Applies `op`, under the name `entry`, to the tensor with this storage, which
    /// no other tensor shares, and this layout.
    pub fn apply_unshared(
        storage: &mut CpuStorage<P>,
        layout: &Layout,
        rhs: &Tensor<P>,
        op: BinaryOp,
        entry: &'static str,
    ) -> (r: Result<(), Error>)
        requires
            layout.wf(),
            layout.fits(old(storage).spec_len()),
            rhs.wf(),
        ensures
            failure(r) == in_place_failure(op, entry@, true, *old(storage), *layout, *rhs),
            r is Err ==> *final(storage) == *old(storage),
            r is Ok ==> storage_combined(
                op,
                *old(storage),
                layout.start_offset as int,
                *rhs.storage,
                rhs.layout.start_offset as int,
                layout.count() as int,
                *final(storage),
            ),
            final(storage).spec_len() == old(storage).spec_len(),
    {
        match Self::assert_inplace_eligible(layout, entry, true) {
            Err(e) => Err(e),
            Ok(()) => {
                if !same_dims(&layout.dims, &rhs.layout.dims) {
                    Err(
                        Error::ShapeMismatchBinaryOp {
                            lhs: copy_dims(&layout.dims),
                            rhs: copy_dims(&rhs.layout.dims),
                            op: entry,
                        },
                    )
                } else {
                    storage.combine_in_place(layout, &*rhs.storage, &rhs.layout, op)
                }
            },
        }
    }

    /// Applies `op`, under the name `entry`, to the tensor with this layout, where
    /// `access` gives the storage if no other tensor shares it and is `None` if one does.
    pub fn apply_with(
        access: Option<&mut CpuStorage<P>>,
        layout: &Layout,
        rhs: &Tensor<P>,
        op: BinaryOp,
        entry: &'static str,
    ) -> (r: Result<(), Error>)
        requires
            layout.wf(),
            access matches Some(storage) ==> layout.fits(storage.spec_len()),
            rhs.wf(),
        ensures
            match access {
                None => failure(r) == eligibility_failure(*layout, entry@, false),
                Some(storage) => {
                    &&& failure(r) == in_place_failure(op, entry@, true, *storage, *layout, *rhs)
                    &&& r is Err ==> *final(storage) == *storage
                    &&& r is Ok ==> storage_combined(
                        op,
                        *storage,
                        layout.start_offset as int,
                        *rhs.storage,
                        rhs.layout.start_offset as int,
                        layout.count() as int,
                        *final(storage),
                    )
                    &&& final(storage).spec_len() == storage.spec_len()
                },
            },
    {
        match access {
            None => Self::assert_inplace_eligible(layout, entry, false),
            Some(storage) => Self::apply_unshared(storage, layout, rhs, op, entry),
        }
    }

    /// Applies `op` in place, under the name `entry`.
    fn in_place(&mut self, rhs: &Tensor<P>, op: BinaryOp, entry: &'static str) -> (r: Result<
        (),
        Error,
    >)
        requires
            old(self).wf(),
            rhs.wf(),
        ensures
            in_place_done(op, entry@, *old(self), *rhs, *final(self), r),
            final(self).wf(),
    {
        Self::apply_with(arc_get_mut(&mut self.storage), &self.layout, rhs, op, entry)
    }

    /// In-place add: `self += rhs`.
    ///
    /// Reuses the memory of `self`. Refused unless `self` is contiguous and holds
    /// its storage alone, and unless `rhs` is contiguous and has the shape and the
    /// type of `self`.
    pub fn add_(&mut self, rhs: &Tensor<P>) -> (r: Result<(), Error>)
        requires
            old(self).wf(),
            rhs.wf(),
        ensures
            in_place_done(BinaryOp::Add, "add_"@, *old(self), *rhs, *final(self), r),
            final(self).wf(),
    {
        self.in_place(rhs, BinaryOp::Add, "add_")
    }

    /// In-place subtract: `self -= rhs`. See [`Tensor::add_`] for what is refused.
    pub fn sub_(&mut self, rhs: &Tensor<P>) -> (r: Result<(), Error>)
        requires
            old(self).wf(),
            rhs.wf(),
        ensures
            in_place_done(BinaryOp::Sub, "sub_"@, *old(self), *rhs, *final(self), r),
            final(self).wf(),
    {
        self.in_place(rhs, BinaryOp::Sub, "sub_")
    }

    /// In-place multiply: `self *= rhs`. See [`Tensor::add_`] for what is refused.
    pub fn mul_(&mut self, rhs: &Tensor<P>) -> (r: Result<(), Error>)
        requires
            old(self).wf(),
            rhs.wf(),
        ensures
            in_place_done(BinaryOp::Mul, "mul_"@, *old(self), *rhs, *final(self), r),
            final(self).wf(),
    {
        self.in_place(rhs, BinaryOp::Mul, "mul_")
    }

    /// Fused add and rectification: the sums of the elements of `self` and `rhs`,
    /// with zero in the place of each that is not greater than zero.
    ///
    /// `rhs` has to have the shape of `self`, and both have to be of one
    /// floating-point type.
    pub fn add_relu(&self, rhs: &Tensor<P>) -> (r: Result<Tensor<P>, Error>)
        requires
            self.wf(),
            rhs.wf(),
        ensures
            failure(r) == (if self.layout.dims@ != rhs.layout.dims@ {
                Some(
                    ErrorView::ShapeMismatchBinaryOp {
                        lhs: self.layout.dims@,
                        rhs: rhs.layout.dims@,
                        op: "add_relu"@,
                    },
                )
            } else if (*self.storage).spec_dtype() != (*rhs.storage).spec_dtype() || !is_float(
                (*self.storage).spec_dtype(),
            ) {
                Some(ErrorView::AddReluDType)
            } else {
                None
            }),
            r matches Ok(t) ==> t.wf() && add_relu_done(*self, *rhs, t),
    {
        if !same_dims(&self.layout.dims, &rhs.layout.dims) {
            return Err(
                Error::ShapeMismatchBinaryOp {
                    lhs: copy_dims(&self.layout.dims),
                    rhs: copy_dims(&rhs.layout.dims),
                    op: "add_relu",
                },
            );
        }
        match self.storage.add_relu(&self.layout, &*rhs.storage, &rhs.layout) {
            Err(e) => Err(e),
            Ok(storage) => {
                let layout = Layout::contiguous(copy_dims(&self.layout.dims));
                proof {
                    if layout.count() > 0 {
                        lemma_row_major_span(layout.dims@, layout.stride@);
                    }
                }
                Ok(Tensor { storage: Arc::new(storage), layout })
            },
        }
    }
}

/// An in-place operation gives, element by element, what the operation gives on the
/// elements that the two tensors had there.
pub proof fn law_in_place_is_elementwise<T: Element>(
    op: BinaryOp,
    dst: Seq<T>,
    dst_l: Layout,
    src: Seq<T>,
    src_l: Layout,
    result: Seq<T>,
    k: int,
)
    requires
        dst_l.dims@ == src_l.dims@,
        row_major(dst_l.dims@, dst_l.stride@),
        row_major(src_l.dims@, src_l.stride@),
        dst_l.fits(dst.len()),
        range_combined(
            op,
            dst,
            dst_l.start_offset as int,
            src,
            src_l.start_offset as int,
            dst_l.count() as int,
            result,
        ),
        0 <= k < dst_l.count(),
    ensures
        combines(
            op,
            dst[dst_l.position(k)],
            src[src_l.position(k)],
            result[dst_l.position(k)],
        ),
{
    law_contiguous_elements_follow(dst_l, k);
    law_contiguous_elements_follow(src_l, k);
    lemma_row_major_span(dst_l.dims@, dst_l.stride@);
    let i = dst_l.position(k);
    assert(0 <= i < dst.len());
    assert(combines(op, dst[i], src[src_l.start_offset + (i - dst_l.start_offset)], result[i]));
}

/// Adding two contiguous tensors of integers, element by element, stays within the
/// range of their type.
pub open spec fn sums_fit<P: Precision>(dst: Tensor<P>, src: Tensor<P>) -> bool {
    let n = dst.layout.count();
    let d = dst.layout.start_offset;
    let s = src.layout.start_offset;
    match (*dst.storage, *src.storage) {
        (CpuStorage::U8(a), CpuStorage::U8(b)) => forall|k: int|
            0 <= k < n ==> #[trigger] a@[d + k] + b@[s + k] <= u8::MAX,
        (CpuStorage::U32(a), CpuStorage::U32(b)) => forall|k: int|
            0 <= k < n ==> #[trigger] a@[d + k] + b@[s + k] <= u32::MAX,
        (CpuStorage::I64(a), CpuStorage::I64(b)) => forall|k: int|
            0 <= k < n ==> i64::MIN <= #[trigger] a@[d + k] + b@[s + k] <= i64::MAX,
        _ => false,
    }
}

/// Two storages of integers are of one type and hold the same elements.
pub open spec fn same_integers<P: Precision>(x: CpuStorage<P>, y: CpuStorage<P>) -> bool {
    match (x, y) {
        (CpuStorage::U8(a), CpuStorage::U8(b)) => a@ == b@,
        (CpuStorage::U32(a), CpuStorage::U32(b)) => a@ == b@,
        (CpuStorage::I64(a), CpuStorage::I64(b)) => a@ == b@,
        _ => false,
    }
}

/// Subtracting what was added restores a tensor of integers, unless a sum saturated.
/// After a sum that succeeded, the difference can be refused only because another
/// tensor has come to share the storage.
pub proof fn law_sub_undoes_add<P: Precision>(
    dst: Tensor<P>,
    src: Tensor<P>,
    sum: Tensor<P>,
    added: Result<(), Error>,
    end: Tensor<P>,
    subtracted: Result<(), Error>,
)
    requires
        dst.wf(),
        src.wf(),
        sums_fit(dst, src),
        in_place_done(BinaryOp::Add, "add_"@, dst, src, sum, added),
        added is Ok,
        in_place_done(BinaryOp::Sub, "sub_"@, sum, src, end, subtracted),
    ensures
        subtracted is Ok ==> end.layout == dst.layout && same_integers(
            *end.storage,
            *dst.storage,
        ),
        subtracted is Err ==> failure(subtracted) == Some(
            ErrorView::SharedStorage { op: "sub_"@ },
        ),
{
    if subtracted is Ok {
        let n = dst.layout.count() as int;
        let d = dst.layout.start_offset as int;
        let s = src.layout.start_offset as int;
        match (&*dst.storage, &*src.storage, &*sum.storage, &*end.storage) {
            (CpuStorage::U8(a), CpuStorage::U8(b), CpuStorage::U8(m), CpuStorage::U8(e)) => {
                assert forall|i: int| 0 <= i < a@.len() implies #[trigger] e@[i] == a@[i] by {
                    if d <= i < d + n {
                        assert(a@[d + (i - d)] + b@[s + (i - d)] <= u8::MAX);
                        law_sub_undoes_add_on_bytes(a@[i], b@[s + (i - d)], m@[i], e@[i]);
                    }
                }
                assert(e@ =~= a@);
            },
            (CpuStorage::U32(a), CpuStorage::U32(b), CpuStorage::U32(m), CpuStorage::U32(e)) => {
                assert forall|i: int| 0 <= i < a@.len() implies #[trigger] e@[i] == a@[i] by {
                    if d <= i < d + n {
                        assert(a@[d + (i - d)] + b@[s + (i - d)] <= u32::MAX);
                        law_sub_undoes_add_on_words(a@[i], b@[s + (i - d)], m@[i], e@[i]);
                    }
                }
                assert(e@ =~= a@);
            },
            (CpuStorage::I64(a), CpuStorage::I64(b), CpuStorage::I64(m), CpuStorage::I64(e)) => {
                assert forall|i: int| 0 <= i < a@.len() implies #[trigger] e@[i] == a@[i] by {
                    if d <= i < d + n {
                        assert(i64::MIN <= a@[d + (i - d)] + b@[s + (i - d)] <= i64::MAX);
                        law_sub_undoes_add_on_long_integers(
                            a@[i],
                            b@[s + (i - d)],
                            m@[i],
                            e@[i],
                        );
                    }
                }
                assert(e@ =~= a@);
            },
            _ => {},
        }
    }
}

/// A copy of a list of dimensions.
pub fn copy_dims(dims: &Vec<usize>) -> (r: Vec<usize>)
    ensures
        r@ == dims@,
{
    let r = dims.clone();
    assert(r@ =~= dims@);
    r
}

/// Element `i` of `r`: inside the `n` places from `from` on, what `op` gives on the element
/// that `a` holds there and its counterpart in `b`, whose counterparts start at `b_from`;
/// outside, what `a` holds there.
pub open spec fn element_combined<T: Element>(
    op: BinaryOp,
    a: Seq<T>,
    from: int,
    b: Seq<T>,
    b_from: int,
    n: int,
    r: Seq<T>,
    i: int,
) -> bool {
    &&& r.len() == a.len()
    &&& from <= i < from + n ==> call_ensures(T::combine, (op, a[i], b[b_from + i - from]), r[i])
    &&& !(from <= i < from + n) ==> r[i] == a[i]
}

/// `r` is what the in-place operation `op` returns on `dst` and `src`.
pub open spec fn in_place_returns<P: Precision>(
    op: BinaryOp,
    dst: &mut Tensor<P>,
    src: Tensor<P>,
    r: Result<(), Error>,
) -> bool {
    match op {
        BinaryOp::Add => call_ensures(Tensor::<P>::add_, (dst, &src), r),
        BinaryOp::Sub => call_ensures(Tensor::<P>::sub_, (dst, &src), r),
        BinaryOp::Mul => call_ensures(Tensor::<P>::mul_, (dst, &src), r),
    }
}

/// An in-place operation that succeeds combines, place by place, the elements that the
/// tensor covers with those of the other, and touches no other element of the storage; one
/// that is refused touches nothing. The layout stays as it is.
pub proof fn law_in_place_touches_its_elements<P: Precision>(
    op: BinaryOp,
    dst: &mut Tensor<P>,
    src: Tensor<P>,
    r: Result<(), Error>,
    i: int,
)
    requires
        in_place_returns(op, dst, src, r),
        0 <= i < (*dst.storage).spec_len(),
    ensures
        final(dst).layout == old(dst).layout,
        r is Err ==> *final(dst).storage == *old(dst).storage,
        r is Ok ==> {
            let (d, s) = (old(dst).layout.start_offset as int, src.layout.start_offset as int);
            let n = old(dst).layout.count() as int;
            match (*old(dst).storage, *src.storage, *final(dst).storage) {
                (CpuStorage::BF16(a), CpuStorage::BF16(b), CpuStorage::BF16(c)) => {
                    element_combined(op, a@, d, b@, s, n, c@, i)
                },
                (CpuStorage::F16(a), CpuStorage::F16(b), CpuStorage::F16(c)) => {
                    element_combined(op, a@, d, b@, s, n, c@, i)
                },
                (CpuStorage::F32(a), CpuStorage::F32(b), CpuStorage::F32(c)) => {
                    element_combined(op, a@, d, b@, s, n, c@, i)
                },
                (CpuStorage::F64(a), CpuStorage::F64(b), CpuStorage::F64(c)) => {
                    element_combined(op, a@, d, b@, s, n, c@, i)
                },
                (CpuStorage::U8(a), CpuStorage::U8(b), CpuStorage::U8(c)) => {
                    element_combined(op, a@, d, b@, s, n, c@, i)
                },
                (CpuStorage::U32(a), CpuStorage::U32(b), CpuStorage::U32(c)) => {
                    element_combined(op, a@, d, b@, s, n, c@, i)
                },
                (CpuStorage::I64(a), CpuStorage::I64(b), CpuStorage::I64(c)) => {
                    element_combined(op, a@, d, b@, s, n, c@, i)
                },
                _ => false,
            }
        },
{
    let (d, s) = (old(dst).layout.start_offset as int, src.layout.start_offset as int);
    assert(s + (i - d) == s + i - d);
}

/// An in-place operation is refused for the first of these that holds: the tensor is not
/// contiguous, its storage is shared, the shapes differ, the other tensor is not contiguous,
/// the types differ or have no kernel. Whether the storage is shared only the program knows.
pub proof fn law_in_place_refusals<P: Precision>(
    op: BinaryOp,
    dst: &mut Tensor<P>,
    src: Tensor<P>,
    r: Result<(), Error>,
)
    requires
        in_place_returns(op, dst, src, r),
    ensures
        ({
            let (d, s) = (old(dst).layout, src.layout);
            let entry = match op {
                BinaryOp::Add => "add_"@,
                BinaryOp::Sub => "sub_"@,
                BinaryOp::Mul => "mul_"@,
            };
            let kernel = match op {
                BinaryOp::Add => "add"@,
                BinaryOp::Sub => "sub"@,
                BinaryOp::Mul => "mul"@,
            };
            if !row_major(d.dims@, d.stride@) {
                r matches Err(Error::RequiresContiguous { op: o }) && o@ == entry
            } else if r matches Err(Error::SharedStorage { .. }) {
                r matches Err(Error::SharedStorage { op: o }) && o@ == entry
            } else if d.dims@ != s.dims@ {
                r matches Err(Error::ShapeMismatchBinaryOp { lhs, rhs, op: o }) && lhs@ == d.dims@
                    && rhs@ == s.dims@ && o@ == entry
            } else if !row_major(s.dims@, s.stride@) {
                r matches Err(Error::RequiresContiguous { op: o }) && o@ == kernel
            } else {
                match (*old(dst).storage, *src.storage) {
                    (CpuStorage::BF16(_), CpuStorage::BF16(_)) => r is Ok,
                    (CpuStorage::F16(_), CpuStorage::F16(_)) => r is Ok,
                    (CpuStorage::F32(_), CpuStorage::F32(_)) => r is Ok,
                    (CpuStorage::F64(_), CpuStorage::F64(_)) => r is Ok,
                    (CpuStorage::U8(_), CpuStorage::U8(_)) => r is Ok,
                    (CpuStorage::U32(_), CpuStorage::U32(_)) => r is Ok,
                    (CpuStorage::I64(_), CpuStorage::I64(_)) => r is Ok,
                    _ => r matches Err(Error::KernelDType { op: o }) && o@ == kernel,
                }
            }
        }),
{
}

/// `r` is a sum of `x` and `y` where that sum is found greater than zero, and zero where it
/// is not.
pub open spec fn is_positive_part_of_sum<T: Real>(x: T, y: T, r: T) -> bool {
    exists|s: T|
        {
            &&& #[trigger] call_ensures(T::combine, (BinaryOp::Add, x, y), s)
            &&& (call_ensures(T::is_positive, (s,), true) && r == s) || (call_ensures(
                T::is_positive,
                (s,),
                false,
            ) && call_ensures(T::zero, (), r))
        }
}

proof fn lemma_positive_part<T: Real>(x: T, y: T, r: T)
    requires
        rectified_sum(x, y, r),
    ensures
        is_positive_part_of_sum(x, y, r),
{
    let s = choose|s: T| #[trigger] combines(BinaryOp::Add, x, y, s) && rectified(s, r);
    law_rectification(x, y, s, r);
    assert(call_ensures(T::combine, (BinaryOp::Add, x, y), s));
}

/// The fused operation gives a new contiguous tensor of the same shape and type whose
/// element `k` is the positive part of the sum of the elements `k` of its operands.
pub proof fn law_add_relu_elements<P: Precision>(
    a: Tensor<P>,
    b: Tensor<P>,
    t: Tensor<P>,
    k: int,
)
    requires
        call_ensures(Tensor::<P>::add_relu, (&a, &b), Ok(t)),
        0 <= k < a.layout.count(),
    ensures
        a.layout.dims@ == b.layout.dims@,
        t.layout.dims@ == a.layout.dims@,
        t.layout.start_offset == 0,
        row_major(t.layout.dims@, t.layout.stride@),
        ({
            let (i, j) = (a.layout.position(k), b.layout.position(k));
            match (*a.storage, *b.storage, *t.storage) {
                (CpuStorage::BF16(x), CpuStorage::BF16(y), CpuStorage::BF16(r)) => {
                    r@.len() == a.layout.count() && is_positive_part_of_sum(x@[i], y@[j], r@[k])
                },
                (CpuStorage::F16(x), CpuStorage::F16(y), CpuStorage::F16(r)) => {
                    r@.len() == a.layout.count() && is_positive_part_of_sum(x@[i], y@[j], r@[k])
                },
                (CpuStorage::F32(x), CpuStorage::F32(y), CpuStorage::F32(r)) => {
                    r@.len() == a.layout.count() && is_positive_part_of_sum(x@[i], y@[j], r@[k])
                },
                (CpuStorage::F64(x), CpuStorage::F64(y), CpuStorage::F64(r)) => {
                    r@.len() == a.layout.count() && is_positive_part_of_sum(x@[i], y@[j], r@[k])
                },
                _ => false,
            }
        }),
{
    let (i, j) = (a.layout.position(k), b.layout.position(k));
    match (&*a.storage, &*b.storage, &*t.storage) {
        (CpuStorage::BF16(x), CpuStorage::BF16(y), CpuStorage::BF16(r)) => {
            lemma_positive_part(x@[i], y@[j], r@[k]);
        },
        (CpuStorage::F16(x), CpuStorage::F16(y), CpuStorage::F16(r)) => {
            lemma_positive_part(x@[i], y@[j], r@[k]);
        },
        (CpuStorage::F32(x), CpuStorage::F32(y), CpuStorage::F32(r)) => {
            lemma_positive_part(x@[i], y@[j], r@[k]);
        },
        (CpuStorage::F64(x), CpuStorage::F64(y), CpuStorage::F64(r)) => {
            lemma_positive_part(x@[i], y@[j], r@[k]);
        },
        _ => {},
    }
}

/// The fused operation is refused exactly where the shapes differ or the operands are not of
/// one floating-point type.
pub proof fn law_add_relu_refusals<P: Precision>(
    a: Tensor<P>,
    b: Tensor<P>,
    r: Result<Tensor<P>, Error>,
)
    requires
        call_ensures(Tensor::<P>::add_relu, (&a, &b), r),
    ensures
        if a.layout.dims@ != b.layout.dims@ {
            r matches Err(Error::ShapeMismatchBinaryOp { lhs, rhs, op }) && lhs@ == a.layout.dims@
                && rhs@ == b.layout.dims@ && op@ == "add_relu"@
        } else {
            match (*a.storage, *b.storage) {
                (CpuStorage::BF16(_), CpuStorage::BF16(_)) => r is Ok,
                (CpuStorage::F16(_), CpuStorage::F16(_)) => r is Ok,
                (CpuStorage::F32(_), CpuStorage::F32(_)) => r is Ok,
                (CpuStorage::F64(_), CpuStorage::F64(_)) => r is Ok,
                _ => r matches Err(Error::AddReluDType),
            }
        },
{
}

/// A tensor is made of its parts exactly if the layout describes elements of the storage.
pub proof fn law_tensor_from_parts<P: Precision>(
    storage: CpuStorage<P>,
    layout: Layout,
    len: usize,
    described: bool,
    r: Option<Tensor<P>>,
)
    requires
        call_ensures(Tensor::<P>::from_parts, (storage, layout), r),
        call_ensures(CpuStorage::<P>::len, (&storage,), len),
        call_ensures(Layout::describes, (&layout, len), described),
    ensures
        r is Some <==> described,
        r matches Some(t) ==> *t.storage == storage && t.layout == layout,
{
}

/// A clone shares the storage and has the layout of the tensor.
pub proof fn law_clone_shares_storage<P: Precision>(t: Tensor<P>, r: Tensor<P>)
    requires
        call_ensures(<Tensor<P> as Clone>::clone, (&t,), r),
    ensures
        r.storage == t.storage,
        r.layout.dims@ == t.layout.dims@,
        r.layout.stride@ == t.layout.stride@,
        r.layout.start_offset == t.layout.start_offset,
{
}

/// A tensor may be modified in place exactly if it is contiguous and holds its storage alone.
pub proof fn law_in_place_eligibility<P: Precision>(
    layout: Layout,
    op: &'static str,
    unique: bool,
    r: Result<(), Error>,
)
    requires
        call_ensures(Tensor::<P>::assert_inplace_eligible, (&layout, op, unique), r),
    ensures
        if !row_major(layout.dims@, layout.stride@) {
            r matches Err(Error::RequiresContiguous { op: o }) && o@ == op@
        } else if !unique {
            r matches Err(Error::SharedStorage { op: o }) && o@ == op@
        } else {
            r is Ok
        },
{
}

/// The fused operation reads its operands through their strides: the element with the index
/// `index` in every dimension is the positive part of the sum of the elements that lie, in
/// each operand, at the start plus the index times the strides. Operands need not be
/// contiguous, and strides may be zero.
pub proof fn law_add_relu_reads_through_strides<P: Precision>(
    a: Tensor<P>,
    b: Tensor<P>,
    t: Tensor<P>,
    index: Seq<int>,
)
    requires
        call_ensures(Tensor::<P>::add_relu, (&a, &b), Ok(t)),
        a.layout.stride@.len() == a.layout.dims@.len(),
        b.layout.stride@.len() == b.layout.dims@.len(),
        is_index(a.layout.dims@, index),
    ensures
        ({
            let i = a.layout.start_offset + index_dot_stride(index, a.layout.stride@);
            let j = b.layout.start_offset + index_dot_stride(index, b.layout.stride@);
            let k = place_of(a.layout.dims@, index);
            match (*a.storage, *b.storage, *t.storage) {
                (CpuStorage::BF16(x), CpuStorage::BF16(y), CpuStorage::BF16(r)) => {
                    is_positive_part_of_sum(x@[i], y@[j], r@[k])
                },
                (CpuStorage::F16(x), CpuStorage::F16(y), CpuStorage::F16(r)) => {
                    is_positive_part_of_sum(x@[i], y@[j], r@[k])
                },
                (CpuStorage::F32(x), CpuStorage::F32(y), CpuStorage::F32(r)) => {
                    is_positive_part_of_sum(x@[i], y@[j], r@[k])
                },
                (CpuStorage::F64(x), CpuStorage::F64(y), CpuStorage::F64(r)) => {
                    is_positive_part_of_sum(x@[i], y@[j], r@[k])
                },
                _ => false,
            }
        }),
{
    law_element_lies_at_its_strides(a.layout, index);
    law_add_relu_elements(a, b, t, place_of(a.layout.dims@, index));
    law_element_lies_at_its_strides(b.layout, index);
}

/// An in-place kernel combines as many elements as both ranges hold, from the start of each,
/// and touches nothing else; one that refuses its operands touches nothing.
pub proof fn law_kernel_combines_the_shorter_range<P: Precision>(
    op: BinaryOp,
    dst: &mut CpuStorage<P>,
    dst_l: Layout,
    src: CpuStorage<P>,
    src_l: Layout,
    r: Result<(), Error>,
    i: int,
)
    requires
        call_ensures(CpuStorage::<P>::combine_in_place, (dst, &dst_l, &src, &src_l, op), r),
        0 <= i < dst.spec_len(),
    ensures
        r is Err ==> *final(dst) == *old(dst),
        r is Ok ==> {
            let (d, s) = (dst_l.start_offset as int, src_l.start_offset as int);
            let n = if dst_l.count() < src_l.count() {
                dst_l.count() as int
            } else {
                src_l.count() as int
            };
            match (*old(dst), src, *final(dst)) {
                (CpuStorage::BF16(a), CpuStorage::BF16(b), CpuStorage::BF16(c)) => {
                    element_combined(op, a@, d, b@, s, n, c@, i)
                },
                (CpuStorage::F16(a), CpuStorage::F16(b), CpuStorage::F16(c)) => {
                    element_combined(op, a@, d, b@, s, n, c@, i)
                },
                (CpuStorage::F32(a), CpuStorage::F32(b), CpuStorage::F32(c)) => {
                    element_combined(op, a@, d, b@, s, n, c@, i)
                },
                (CpuStorage::F64(a), CpuStorage::F64(b), CpuStorage::F64(c)) => {
                    element_combined(op, a@, d, b@, s, n, c@, i)
                },
                (CpuStorage::U8(a), CpuStorage::U8(b), CpuStorage::U8(c)) => {
                    element_combined(op, a@, d, b@, s, n, c@, i)
                },
                (CpuStorage::U32(a), CpuStorage::U32(b), CpuStorage::U32(c)) => {
                    element_combined(op, a@, d, b@, s, n, c@, i)
                },
                (CpuStorage::I64(a), CpuStorage::I64(b), CpuStorage::I64(c)) => {
                    element_combined(op, a@, d, b@, s, n, c@, i)
                },
                _ => false,
            }
        },
{
    let (d, s) = (dst_l.start_offset as int, src_l.start_offset as int);
    assert(s + (i - d) == s + i - d);
}

} // verus!
