//! Reading node numbers out of an edge list.

use vstd::prelude::*;

use crate::dtype::DType;
use crate::inplace_ops::Tensor;
use crate::layout::{
    law_contiguous_elements_follow, law_matrix_positions, lemma_matrix_count,
    lemma_offset_within_span, row_major, tail,
};
use crate::storage::{CpuStorage, Precision};

verus! {

/// The integer element types.
pub open spec fn is_integer(t: DType) -> bool {
    t is U8 || t is U32 || t is I16 || t is I32 || t is I64
}

/// The element at a position of a storage of integers.
pub open spec fn integer_at<P: Precision>(s: CpuStorage<P>, i: int) -> int {
    match s {
        CpuStorage::U8(v) => v@[i] as int,
        CpuStorage::U32(v) => v@[i] as int,
        CpuStorage::I16(v) => v@[i] as int,
        CpuStorage::I32(v) => v@[i] as int,
        CpuStorage::I64(v) => v@[i] as int,
        _ => 0,
    }
}

/// Entry `k` of row `row` of a two-dimensional tensor of integers.
pub open spec fn entry<P: Precision>(t: Tensor<P>, row: int, k: int) -> int {
    integer_at(*t.storage, t.layout.position(row * t.layout.dims@[1] + k))
}

/// Whether an element type is an integer type.
pub fn holds_integers(t: DType) -> (r: bool)
    ensures
        r == is_integer(t),
{
    match t {
        DType::U8 => true,
        DType::U32 => true,
        DType::I16 => true,
        DType::I32 => true,
        DType::I64 => true,
        _ => false,
    }
}

/// The entries of row `row` of a two-dimensional tensor of integers.
pub fn integer_row<P: Precision>(t: &Tensor<P>, row: usize) -> (r: Vec<i64>)
    requires
        t.wf(),
        t.layout.dims@.len() == 2,
        row < t.layout.dims@[0],
        is_integer((*t.storage).spec_dtype()),
    ensures
        r@.len() == t.layout.dims@[1],
        forall|k: int| 0 <= k < r@.len() ==> #[trigger] r@[k] == entry(*t, row as int, k),
{
    let width: usize = t.layout.dims[1];
    let ghost dims = t.layout.dims@;
    let mut r: Vec<i64> = Vec::new();
    let mut k: usize = 0;
    while k < width
        invariant
            t.wf(),
            dims == t.layout.dims@,
            dims.len() == 2,
            row < dims[0],
            width == dims[1],
            is_integer((*t.storage).spec_dtype()),
            k <= width,
            r@.len() == k,
            forall|j: int| 0 <= j < k ==> #[trigger] r@[j] == entry(*t, row as int, j),
        decreases width - k,
    {
        proof {
            (*t.storage).lemma_len_fits();
            lemma_matrix_count(dims);
            assert(tail(dims, 0) =~= dims);
            assert(0 <= row * width && row * width + k < dims[0] * dims[1]) by (nonlinear_arith)
                requires
                    0 <= row < dims[0],
                    0 <= k < dims[1],
                    width == dims[1],
            ;
            lemma_offset_within_span(dims, t.layout.stride@, row * width + k);
        }
        let i: usize = t.layout.offset(row * width + k);
        let n: i64 = match &*t.storage {
            CpuStorage::U8(v) => v[i] as i64,
            CpuStorage::U32(v) => v[i] as i64,
            CpuStorage::I16(v) => v[i] as i64,
            CpuStorage::I32(v) => v[i] as i64,
            CpuStorage::I64(v) => v[i],
            _ => 0,
        };
        r.push(n);
        k = k + 1;
    }
    r
}

/// An entry is the number that the storage holds at the entry's place: `row` row strides
/// and `k` column strides from the start, whatever the integer type.
pub proof fn law_entry_is_the_stored_number<P: Precision>(t: Tensor<P>, row: int, k: int)
    requires
        t.layout.dims@.len() == 2,
        t.layout.stride@.len() == 2,
        0 <= row < t.layout.dims@[0],
        0 <= k < t.layout.dims@[1],
    ensures
        *t.storage matches CpuStorage::U8(v) ==> entry(t, row, k) == v@[t.layout.start_offset + row
            * t.layout.stride@[0] + k * t.layout.stride@[1]],
        *t.storage matches CpuStorage::U32(v) ==> entry(t, row, k) == v@[t.layout.start_offset + row
            * t.layout.stride@[0] + k * t.layout.stride@[1]],
        *t.storage matches CpuStorage::I16(v) ==> entry(t, row, k) == v@[t.layout.start_offset + row
            * t.layout.stride@[0] + k * t.layout.stride@[1]],
        *t.storage matches CpuStorage::I32(v) ==> entry(t, row, k) == v@[t.layout.start_offset + row
            * t.layout.stride@[0] + k * t.layout.stride@[1]],
        *t.storage matches CpuStorage::I64(v) ==> entry(t, row, k) == v@[t.layout.start_offset + row
            * t.layout.stride@[0] + k * t.layout.stride@[1]],
{
    law_matrix_positions(t.layout, row, k);
}

/// In a contiguous edge list the entries of a row follow one another in the storage, and
/// the rows follow one another.
pub proof fn law_contiguous_entries<P: Precision>(t: Tensor<P>, row: int, k: int)
    requires
        t.layout.dims@.len() == 2,
        row_major(t.layout.dims@, t.layout.stride@),
        0 <= row < t.layout.dims@[0],
        0 <= k < t.layout.dims@[1],
    ensures
        *t.storage matches CpuStorage::U8(v) ==> entry(t, row, k) == v@[t.layout.start_offset + row
            * t.layout.dims@[1] + k],
        *t.storage matches CpuStorage::U32(v) ==> entry(t, row, k) == v@[t.layout.start_offset + row
            * t.layout.dims@[1] + k],
        *t.storage matches CpuStorage::I16(v) ==> entry(t, row, k) == v@[t.layout.start_offset + row
            * t.layout.dims@[1] + k],
        *t.storage matches CpuStorage::I32(v) ==> entry(t, row, k) == v@[t.layout.start_offset + row
            * t.layout.dims@[1] + k],
        *t.storage matches CpuStorage::I64(v) ==> entry(t, row, k) == v@[t.layout.start_offset + row
            * t.layout.dims@[1] + k],
{
    law_matrix_positions(t.layout, row, k);
    law_contiguous_elements_follow(t.layout, row * t.layout.dims@[1] + k);
}

/// The integer types are the signed and unsigned ones of 8 to 64 bits.
pub proof fn law_integer_types(t: DType)
    ensures
        is_integer(t) <==> t == DType::U8 || t == DType::U32 || t == DType::I16 || t == DType::I32
            || t == DType::I64,
{
}

/// [`integer_row`] reads a row as the storage holds it: entry `k` is the number that lies
/// `row` row strides and `k` column strides from the start, whatever the integer type.
pub proof fn law_row_is_read_as_stored<P: Precision>(
    t: Tensor<P>,
    row: usize,
    r: Vec<i64>,
    k: int,
)
    requires
        call_ensures(integer_row::<P>, (&t, row), r),
        t.layout.dims@.len() == 2,
        t.layout.stride@.len() == 2,
        row < t.layout.dims@[0],
        0 <= k < t.layout.dims@[1],
    ensures
        r@.len() == t.layout.dims@[1],
        ({
            let i = t.layout.start_offset + row * t.layout.stride@[0] + k * t.layout.stride@[1];
            match *t.storage {
                CpuStorage::U8(v) => r@[k] == v@[i],
                CpuStorage::U32(v) => r@[k] == v@[i],
                CpuStorage::I16(v) => r@[k] == v@[i],
                CpuStorage::I32(v) => r@[k] == v@[i],
                CpuStorage::I64(v) => r@[k] == v@[i],
                _ => true,
            }
        }),
{
    law_entry_is_the_stored_number(t, row as int, k);
    assert(r@[k] == entry(t, row as int, k));
}

/// [`holds_integers`] tells the integer types from all others.
pub proof fn law_holds_integers(t: DType, r: bool)
    requires
        call_ensures(holds_integers, (t,), r),
    ensures
        r <==> t == DType::U8 || t == DType::U32 || t == DType::I16 || t == DType::I32 || t
            == DType::I64,
{
}

} // verus!
