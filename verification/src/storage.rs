//! Tensor storage in host memory.

use vstd::prelude::*;

use crate::bfloat::Bf16;
use crate::dtype::DType;
use crate::element::{combines, BinaryOp, Element, Real};

verus! {

/// The floating-point types that a program computes with, besides `Bf16`, and what
/// leads from one to another.
pub trait Precision {
    /// Half precision.
    type F16: Real;

    /// Single precision.
    type F32: Real;

    /// Double precision.
    type F64: Real;

    /// A brain floating-point number at single precision.
    fn bf16_to_f32(x: Bf16) -> Self::F32;

    /// A half-precision number at single precision.
    fn f16_to_f32(x: Self::F16) -> Self::F32;

    /// A double-precision number at single precision.
    fn f64_to_f32(x: Self::F64) -> Self::F32;

    /// A number divided by a count.
    fn divide(x: Self::F32, count: u64) -> Self::F32;
}

/// The elements of a tensor. The types without arithmetic of their own are held
/// as bytes.
pub enum CpuStorage<P: Precision> {
    U8(Vec<u8>),
    U32(Vec<u32>),
    I16(Vec<i16>),
    I32(Vec<i32>),
    I64(Vec<i64>),
    BF16(Vec<Bf16>),
    F16(Vec<P::F16>),
    F32(Vec<P::F32>),
    F64(Vec<P::F64>),
    F8E4M3(Vec<u8>),
    F6E2M3(Vec<u8>),
    F6E3M2(Vec<u8>),
    F4(Vec<u8>),
    F8E8M0(Vec<u8>),
}

impl<P: Precision> CpuStorage<P> {
    /// The type of the elements.
    pub open spec fn spec_dtype(&self) -> DType {
        match self {
            CpuStorage::U8(_) => DType::U8,
            CpuStorage::U32(_) => DType::U32,
            CpuStorage::I16(_) => DType::I16,
            CpuStorage::I32(_) => DType::I32,
            CpuStorage::I64(_) => DType::I64,
            CpuStorage::BF16(_) => DType::BF16,
            CpuStorage::F16(_) => DType::F16,
            CpuStorage::F32(_) => DType::F32,
            CpuStorage::F64(_) => DType::F64,
            CpuStorage::F8E4M3(_) => DType::F8E4M3,
            CpuStorage::F6E2M3(_) => DType::F6E2M3,
            CpuStorage::F6E3M2(_) => DType::F6E3M2,
            CpuStorage::F4(_) => DType::F4,
            CpuStorage::F8E8M0(_) => DType::F8E8M0,
        }
    }

    /// The number of elements.
    pub open spec fn spec_len(&self) -> nat {
        match self {
            CpuStorage::U8(v) => v@.len(),
            CpuStorage::U32(v) => v@.len(),
            CpuStorage::I16(v) => v@.len(),
            CpuStorage::I32(v) => v@.len(),
            CpuStorage::I64(v) => v@.len(),
            CpuStorage::BF16(v) => v@.len(),
            CpuStorage::F16(v) => v@.len(),
            CpuStorage::F32(v) => v@.len(),
            CpuStorage::F64(v) => v@.len(),
            CpuStorage::F8E4M3(v) => v@.len(),
            CpuStorage::F6E2M3(v) => v@.len(),
            CpuStorage::F6E3M2(v) => v@.len(),
            CpuStorage::F4(v) => v@.len(),
            CpuStorage::F8E8M0(v) => v@.len(),
        }
    }

    /// A storage never has more elements than a machine word can count.
    pub proof fn lemma_len_fits(&self)
        ensures
            self.spec_len() <= usize::MAX,
    {
        match self {
            CpuStorage::U8(v) => assert(v.len() == v@.len()),
            CpuStorage::U32(v) => assert(v.len() == v@.len()),
            CpuStorage::I16(v) => assert(v.len() == v@.len()),
            CpuStorage::I32(v) => assert(v.len() == v@.len()),
            CpuStorage::I64(v) => assert(v.len() == v@.len()),
            CpuStorage::BF16(v) => assert(v.len() == v@.len()),
            CpuStorage::F16(v) => assert(v.len() == v@.len()),
            CpuStorage::F32(v) => assert(v.len() == v@.len()),
            CpuStorage::F64(v) => assert(v.len() == v@.len()),
            CpuStorage::F8E4M3(v) => assert(v.len() == v@.len()),
            CpuStorage::F6E2M3(v) => assert(v.len() == v@.len()),
            CpuStorage::F6E3M2(v) => assert(v.len() == v@.len()),
            CpuStorage::F4(v) => assert(v.len() == v@.len()),
            CpuStorage::F8E8M0(v) => assert(v.len() == v@.len()),
        }
    }

    /// The type of the elements.
    pub fn dtype(&self) -> (r: DType)
        ensures
            r == self.spec_dtype(),
    {
        match self {
            CpuStorage::U8(_) => DType::U8,
            CpuStorage::U32(_) => DType::U32,
            CpuStorage::I16(_) => DType::I16,
            CpuStorage::I32(_) => DType::I32,
            CpuStorage::I64(_) => DType::I64,
            CpuStorage::BF16(_) => DType::BF16,
            CpuStorage::F16(_) => DType::F16,
            CpuStorage::F32(_) => DType::F32,
            CpuStorage::F64(_) => DType::F64,
            CpuStorage::F8E4M3(_) => DType::F8E4M3,
            CpuStorage::F6E2M3(_) => DType::F6E2M3,
            CpuStorage::F6E3M2(_) => DType::F6E3M2,
            CpuStorage::F4(_) => DType::F4,
            CpuStorage::F8E8M0(_) => DType::F8E8M0,
        }
    }

    /// The number of elements.
    pub fn len(&self) -> (r: usize)
        ensures
            r == self.spec_len(),
    {
        match self {
            CpuStorage::U8(v) => v.len(),
            CpuStorage::U32(v) => v.len(),
            CpuStorage::I16(v) => v.len(),
            CpuStorage::I32(v) => v.len(),
            CpuStorage::I64(v) => v.len(),
            CpuStorage::BF16(v) => v.len(),
            CpuStorage::F16(v) => v.len(),
            CpuStorage::F32(v) => v.len(),
            CpuStorage::F64(v) => v.len(),
            CpuStorage::F8E4M3(v) => v.len(),
            CpuStorage::F6E2M3(v) => v.len(),
            CpuStorage::F6E3M2(v) => v.len(),
            CpuStorage::F4(v) => v.len(),
            CpuStorage::F8E8M0(v) => v.len(),
        }
    }
}

/// `result` is `dst` with `op` applied to the `n` elements from `d` on, each with
/// its counterpart among the elements of `src` from `s` on.
pub open spec fn range_combined<T: Element>(
    op: BinaryOp,
    dst: Seq<T>,
    d: int,
    src: Seq<T>,
    s: int,
    n: int,
    result: Seq<T>,
) -> bool {
    &&& result.len() == dst.len()
    &&& forall|i: int|
        0 <= i < dst.len() ==> if d <= i < d + n {
            combines(op, dst[i], src[s + (i - d)], #[trigger] result[i])
        } else {
            result[i] == dst[i]
        }
}

/// Applies `op` to the elements of `dst` from `d1` up to `d2` and those of `src`
/// from `s1` up to `s2`, in place and as far as both reach.
pub fn combine_range<T: Element>(
    op: BinaryOp,
    dst: &mut Vec<T>,
    d1: usize,
    d2: usize,
    src: &Vec<T>,
    s1: usize,
    s2: usize,
)
    requires
        d1 <= d2 <= old(dst)@.len(),
        s1 <= s2 <= src@.len(),
    ensures
        range_combined(
            op,
            old(dst)@,
            d1 as int,
            src@,
            s1 as int,
            if d2 - d1 < s2 - s1 {
                d2 - d1
            } else {
                s2 - s1
            },
            final(dst)@,
        ),
{
    let n: usize = if d2 - d1 < s2 - s1 {
        d2 - d1
    } else {
        s2 - s1
    };
    let mut i: usize = 0;
    while i < n
        invariant
            i <= n,
            n <= d2 - d1,
            n <= s2 - s1,
            d1 <= d2 <= old(dst)@.len(),
            s1 <= s2 <= src@.len(),
            range_combined(op, old(dst)@, d1 as int, src@, s1 as int, i as int, dst@),
        decreases n - i,
    {
        let r = T::combine(op, dst[d1 + i], src[s1 + i]);
        assert(combines(op, dst@[d1 + i], src@[s1 + i], r));
        dst.set(d1 + i, r);
        i = i + 1;
    }
}

/// [`CpuStorage::dtype`] names the type of the elements, and [`CpuStorage::len`] gives the
/// length of the vector that holds them.
pub proof fn law_storage_is_its_vector<P: Precision>(s: CpuStorage<P>, dtype: DType, len: usize)
    requires
        call_ensures(CpuStorage::<P>::dtype, (&s,), dtype),
        call_ensures(CpuStorage::<P>::len, (&s,), len),
    ensures
        match s {
            CpuStorage::U8(v) => dtype == DType::U8 && len == v@.len(),
            CpuStorage::U32(v) => dtype == DType::U32 && len == v@.len(),
            CpuStorage::I16(v) => dtype == DType::I16 && len == v@.len(),
            CpuStorage::I32(v) => dtype == DType::I32 && len == v@.len(),
            CpuStorage::I64(v) => dtype == DType::I64 && len == v@.len(),
            CpuStorage::BF16(v) => dtype == DType::BF16 && len == v@.len(),
            CpuStorage::F16(v) => dtype == DType::F16 && len == v@.len(),
            CpuStorage::F32(v) => dtype == DType::F32 && len == v@.len(),
            CpuStorage::F64(v) => dtype == DType::F64 && len == v@.len(),
            CpuStorage::F8E4M3(v) => dtype == DType::F8E4M3 && len == v@.len(),
            CpuStorage::F6E2M3(v) => dtype == DType::F6E2M3 && len == v@.len(),
            CpuStorage::F6E3M2(v) => dtype == DType::F6E3M2 && len == v@.len(),
            CpuStorage::F4(v) => dtype == DType::F4 && len == v@.len(),
            CpuStorage::F8E8M0(v) => dtype == DType::F8E8M0 && len == v@.len(),
        },
{
}

/// [`combine_range`] applies the operation to each element of `dst` from `d1` on and its
/// counterpart in `src` from `s1` on, up to the end of the shorter range, and leaves every
/// other element as it was.
pub proof fn law_range_is_combined<T: Element>(
    op: BinaryOp,
    dst: &mut Vec<T>,
    d1: usize,
    d2: usize,
    src: Vec<T>,
    s1: usize,
    s2: usize,
    i: int,
)
    requires
        call_ensures(combine_range::<T>, (op, dst, d1, d2, &src, s1, s2), ()),
        d1 <= d2 <= dst@.len(),
        s1 <= s2 <= src@.len(),
        0 <= i < dst@.len(),
    ensures
        final(dst)@.len() == old(dst)@.len(),
        d1 <= i < d2 && i - d1 < s2 - s1 ==> call_ensures(
            T::combine,
            (op, old(dst)@[i], src@[s1 + i - d1]),
            final(dst)@[i],
        ),
        !(d1 <= i < d2 && i - d1 < s2 - s1) ==> final(dst)@[i] == old(dst)@[i],
{
    assert(s1 + (i - d1) == s1 + i - d1);
}

} // verus!
