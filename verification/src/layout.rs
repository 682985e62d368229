//! How the elements of a tensor lie in its storage.

use vstd::prelude::*;

verus! {

/// The number of elements of a tensor with these dimensions.
pub open spec fn element_count(dims: Seq<usize>) -> nat
    decreases dims.len(),
{
    if dims.len() == 0 {
        1
    } else {
        dims[0] as nat * element_count(dims.drop_first())
    }
}

/// The dimensions from `i` on.
pub open spec fn tail(dims: Seq<usize>, i: int) -> Seq<usize> {
    dims.subrange(i, dims.len() as int)
}

/// Every count that is formed over trailing dimensions fits in a machine word.
pub open spec fn countable(dims: Seq<usize>) -> bool {
    forall|i: int| 0 <= i <= dims.len() ==> #[trigger] element_count(tail(dims, i)) <= usize::MAX
}

/// Where element `k`, counted with the last dimension running fastest, lies
/// relative to the first element.
pub open spec fn strided_offset(dims: Seq<usize>, stride: Seq<usize>, k: int) -> int
    decreases dims.len(),
{
    if dims.len() == 0 {
        0
    } else {
        let rest = element_count(dims.drop_first()) as int;
        (k / rest) * stride[0] + strided_offset(dims.drop_first(), stride.drop_first(), k % rest)
    }
}

/// The largest relative position that any element takes, where there is an element.
pub open spec fn span(dims: Seq<usize>, stride: Seq<usize>) -> int
    decreases dims.len(),
{
    if dims.len() == 0 {
        0
    } else {
        (dims[0] - 1) * stride[0] + span(dims.drop_first(), stride.drop_first())
    }
}

/// The elements follow one another without gaps, in row-major order. The stride of
/// a dimension with a single index does not matter.
pub open spec fn row_major(dims: Seq<usize>, stride: Seq<usize>) -> bool {
    &&& stride.len() == dims.len()
    &&& forall|i: int|
        0 <= i < dims.len() && dims[i] > 1 ==> #[trigger] stride[i] == element_count(
            tail(dims, i + 1),
        )
}

proof fn lemma_tail_step(dims: Seq<usize>, i: int)
    requires
        0 <= i < dims.len(),
    ensures
        tail(dims, i).len() == dims.len() - i,
        tail(dims, i)[0] == dims[i],
        tail(dims, i).drop_first() == tail(dims, i + 1),
        element_count(tail(dims, i)) == dims[i] as nat * element_count(tail(dims, i + 1)),
        element_count(tail(dims, i)) == element_count(tail(dims, i + 1)) * dims[i] as nat,
{
    assert(tail(dims, i).drop_first() =~= tail(dims, i + 1));
    vstd::arithmetic::mul::lemma_mul_is_commutative(
        dims[i] as int,
        element_count(tail(dims, i + 1)) as int,
    );
}

proof fn lemma_row_major_first(dims: Seq<usize>, stride: Seq<usize>)
    requires
        row_major(dims, stride),
        dims.len() > 0,
    ensures
        row_major(dims.drop_first(), stride.drop_first()),
        dims[0] > 1 ==> stride[0] == element_count(dims.drop_first()),
{
    assert(tail(dims, 1) =~= dims.drop_first());
    let d = dims.drop_first();
    let s = stride.drop_first();
    assert forall|i: int| 0 <= i < d.len() && d[i] > 1 implies #[trigger] s[i] == element_count(
        tail(d, i + 1),
    ) by {
        assert(s[i] == stride[i + 1]);
        assert(tail(d, i + 1) =~= tail(dims, i + 2));
    }
}

/// In a row-major layout element `k` lies at position `k`.
proof fn lemma_row_major_offset(dims: Seq<usize>, stride: Seq<usize>, k: int)
    requires
        row_major(dims, stride),
        0 <= k < element_count(dims),
    ensures
        strided_offset(dims, stride, k) == k,
    decreases dims.len(),
{
    if dims.len() > 0 {
        let rest = element_count(dims.drop_first()) as int;
        lemma_row_major_first(dims, stride);
        assert(rest > 0) by (nonlinear_arith)
            requires
                0 <= k < dims[0] * rest,
                rest >= 0,
        ;
        assert(0 <= k % rest < rest && (k / rest) * rest + k % rest == k && 0 <= k / rest
            < dims[0]) by (nonlinear_arith)
            requires
                0 <= k < dims[0] * rest,
                rest > 0,
        ;
        lemma_row_major_offset(dims.drop_first(), stride.drop_first(), k % rest);
        if dims[0] <= 1 {
            assert(k / rest == 0);
            assert((k / rest) * stride[0] == 0 && (k / rest) * rest == 0) by (nonlinear_arith)
                requires
                    k / rest == 0,
            ;
        }
    }
}

/// In a row-major layout with an element the last one lies directly behind all others.
pub proof fn lemma_row_major_span(dims: Seq<usize>, stride: Seq<usize>)
    requires
        row_major(dims, stride),
        element_count(dims) > 0,
    ensures
        span(dims, stride) == element_count(dims) - 1,
    decreases dims.len(),
{
    if dims.len() > 0 {
        let rest = element_count(dims.drop_first()) as int;
        lemma_row_major_first(dims, stride);
        assert(rest > 0 && dims[0] > 0) by (nonlinear_arith)
            requires
                0 < dims[0] * rest,
                rest >= 0,
                dims[0] >= 0,
        ;
        lemma_row_major_span(dims.drop_first(), stride.drop_first());
        if dims[0] == 1 {
            assert((dims[0] - 1) * stride[0] == 0) by (nonlinear_arith)
                requires
                    dims[0] == 1,
            ;
            assert(dims[0] * rest == rest) by (nonlinear_arith)
                requires
                    dims[0] == 1,
            ;
        } else {
            assert((dims[0] - 1) * rest + rest == dims[0] * rest) by (nonlinear_arith);
        }
    }
}

proof fn lemma_offset_nonnegative(dims: Seq<usize>, stride: Seq<usize>, k: int)
    requires
        stride.len() == dims.len(),
        0 <= k < element_count(dims),
    ensures
        0 <= strided_offset(dims, stride, k),
{
    lemma_offset_within_span(dims, stride, k);
}

/// A matrix has as many elements as the product of its dimensions.
pub proof fn lemma_matrix_count(dims: Seq<usize>)
    requires
        dims.len() == 2,
    ensures
        element_count(dims) == dims[0] * dims[1],
{
    assert(dims.drop_first().drop_first() =~= Seq::<usize>::empty());
    reveal_with_fuel(element_count, 3);
    assert(dims[1] * 1 == dims[1]);
}

/// The counts of a matrix fit in a machine word if that of its elements does.
pub proof fn lemma_matrix_countable(dims: Seq<usize>)
    requires
        dims.len() == 2,
        dims[0] * dims[1] <= usize::MAX,
    ensures
        countable(dims),
{
    lemma_matrix_count(dims);
    assert forall|i: int| 0 <= i <= dims.len() implies #[trigger] element_count(tail(dims, i))
        <= usize::MAX by {
        assert(tail(dims, 0) =~= dims);
        assert(tail(dims, 2) =~= Seq::<usize>::empty());
        lemma_tail_step(dims, 1);
        assert(element_count(tail(dims, 2)) == 1);
        assert(dims[1] as nat * 1 == dims[1]);
    }
}

/// Every element lies within the span of its layout.
pub proof fn lemma_offset_within_span(dims: Seq<usize>, stride: Seq<usize>, k: int)
    requires
        stride.len() == dims.len(),
        0 <= k < element_count(dims),
    ensures
        0 <= strided_offset(dims, stride, k) <= span(dims, stride),
    decreases dims.len(),
{
    if dims.len() > 0 {
        let rest = element_count(dims.drop_first()) as int;
        assert(rest > 0) by (nonlinear_arith)
            requires
                0 <= k < dims[0] * rest,
                rest >= 0,
        ;
        assert(0 <= k % rest < rest && 0 <= k / rest < dims[0]) by (nonlinear_arith)
            requires
                0 <= k < dims[0] * rest,
                rest > 0,
        ;
        lemma_offset_within_span(dims.drop_first(), stride.drop_first(), k % rest);
        assert(0 <= (k / rest) * stride[0] <= (dims[0] - 1) * stride[0]) by (nonlinear_arith)
            requires
                0 <= k / rest <= dims[0] - 1,
                0 <= stride[0],
        ;
    }
}

/// Dimensions, strides and the position of the first element.
#[derive(Debug)]
pub struct Layout {
    pub dims: Vec<usize>,
    pub stride: Vec<usize>,
    pub start_offset: usize,
}

proof fn lemma_zero_dim(dims: Seq<usize>, i: int)
    requires
        0 <= i < dims.len(),
        dims[i] == 0,
    ensures
        element_count(dims) == 0,
    decreases dims.len(),
{
    let rest = element_count(dims.drop_first());
    if i > 0 {
        lemma_zero_dim(dims.drop_first(), i - 1);
        assert(dims[0] as nat * 0 == 0);
    } else {
        assert(0 * rest == 0);
    }
}

proof fn lemma_tail_counts_less(dims: Seq<usize>, i: int)
    requires
        0 <= i <= dims.len(),
        forall|j: int| 0 <= j < dims.len() ==> #[trigger] dims[j] > 0,
    ensures
        element_count(tail(dims, i)) <= element_count(dims),
    decreases i,
{
    if i == 0 {
        assert(tail(dims, 0) =~= dims);
    } else {
        lemma_tail_counts_less(dims, i - 1);
        lemma_tail_step(dims, i - 1);
        let d = dims[i - 1] as nat;
        let c = element_count(tail(dims, i));
        assert(c <= d * c) by (nonlinear_arith)
            requires
                d >= 1,
        ;
    }
}

/// The number of elements of a tensor with these dimensions.
pub fn dims_count(dims: &Vec<usize>) -> (r: usize)
    requires
        element_count(dims@) <= usize::MAX,
    ensures
        r == element_count(dims@),
{
    let mut k: usize = 0;
    while k < dims.len()
        invariant
            k <= dims@.len(),
            forall|j: int| 0 <= j < k ==> #[trigger] dims@[j] > 0,
        decreases dims@.len() - k,
    {
        if dims[k] == 0 {
            proof {
                lemma_zero_dim(dims@, k as int);
            }
            return 0;
        }
        k = k + 1;
    }
    let mut acc: usize = 1;
    let mut i: usize = dims.len();
    assert(tail(dims@, i as int) =~= Seq::<usize>::empty());
    while i > 0
        invariant
            element_count(dims@) <= usize::MAX,
            forall|j: int| 0 <= j < dims@.len() ==> #[trigger] dims@[j] > 0,
            i <= dims@.len(),
            acc == element_count(tail(dims@, i as int)),
        decreases i,
    {
        i = i - 1;
        proof {
            lemma_tail_step(dims@, i as int);
            lemma_tail_counts_less(dims@, i as int);
        }
        acc = acc * dims[i];
    }
    assert(tail(dims@, 0) =~= dims@);
    acc
}

/// Whether two lists of dimensions are the same.
pub fn same_dims(a: &Vec<usize>, b: &Vec<usize>) -> (r: bool)
    ensures
        r == (a@ == b@),
{
    if a.len() != b.len() {
        return false;
    }
    let mut i: usize = 0;
    while i < a.len()
        invariant
            i <= a@.len(),
            a@.len() == b@.len(),
            forall|j: int| 0 <= j < i ==> a@[j] == b@[j],
        decreases a@.len() - i,
    {
        if a[i] != b[i] {
            return false;
        }
        i = i + 1;
    }
    assert(a@ =~= b@);
    true
}

impl Layout {
    /// Dimensions and strides match and counts fit in a machine word.
    pub open spec fn wf(&self) -> bool {
        &&& self.stride@.len() == self.dims@.len()
        &&& countable(self.dims@)
    }

    /// The number of elements.
    pub open spec fn count(&self) -> nat {
        element_count(self.dims@)
    }

    /// The position of element `k` in the storage.
    pub open spec fn position(&self, k: int) -> int {
        self.start_offset + strided_offset(self.dims@, self.stride@, k)
    }

    /// All elements lie in a storage of length `len`.
    pub open spec fn fits(&self, len: nat) -> bool {
        &&& self.start_offset <= len
        &&& self.count() > 0 ==> self.start_offset + span(self.dims@, self.stride@) < len
    }

    /// Whether the elements are contiguous in row-major order.
    pub fn is_contiguous(&self) -> (r: bool)
        requires
            self.wf(),
        ensures
            r == row_major(self.dims@, self.stride@),
    {
        let mut acc: usize = 1;
        let mut i: usize = self.dims.len();
        assert(tail(self.dims@, i as int) =~= Seq::<usize>::empty());
        while i > 0
            invariant
                self.wf(),
                i <= self.dims@.len(),
                acc == element_count(tail(self.dims@, i as int)),
                forall|j: int|
                    i <= j < self.dims@.len() && self.dims@[j] > 1 ==> #[trigger] self.stride@[j]
                        == element_count(tail(self.dims@, j + 1)),
            decreases i,
        {
            i = i - 1;
            proof {
                lemma_tail_step(self.dims@, i as int);
                assert(element_count(tail(self.dims@, i as int)) <= usize::MAX);
            }
            let dim: usize = self.dims[i];
            if dim > 1 && self.stride[i] != acc {
                assert(self.stride@[i as int] != element_count(tail(self.dims@, i + 1)));
                return false;
            }
            acc = acc * dim;
        }
        true
    }

    /// The number of elements.
    pub fn elem_count(&self) -> (r: usize)
        requires
            self.wf(),
        ensures
            r == self.count(),
    {
        assert(tail(self.dims@, 0) =~= self.dims@);
        dims_count(&self.dims)
    }

    /// The range of positions that a contiguous layout covers, and `None` for any other.
    pub fn contiguous_offsets(&self) -> (r: Option<(usize, usize)>)
        requires
            self.wf(),
            row_major(self.dims@, self.stride@) ==> self.start_offset + self.count()
                <= usize::MAX,
        ensures
            r == (if row_major(self.dims@, self.stride@) {
                Some((self.start_offset, (self.start_offset + self.count()) as usize))
            } else {
                None
            }),
    {
        if self.is_contiguous() {
            Some((self.start_offset, self.start_offset + self.elem_count()))
        } else {
            None
        }
    }

    /// The position of element `k` in the storage.
    pub fn offset(&self, k: usize) -> (r: usize)
        requires
            self.wf(),
            k < self.count(),
            self.start_offset + span(self.dims@, self.stride@) <= usize::MAX,
        ensures
            r == self.position(k as int),
    {
        proof {
            lemma_offset_within_span(self.dims@, self.stride@, k as int);
        }
        let ghost total = self.position(k as int);
        let ghost dims = self.dims@;
        let ghost stride = self.stride@;
        let mut rest: usize = self.elem_count();
        let mut left: usize = k;
        let mut at: usize = self.start_offset;
        let mut i: usize = 0;
        assert(tail(dims, 0) =~= dims);
        assert(tail(stride, 0) =~= stride);
        while i < self.dims.len()
            invariant
                self.wf(),
                dims == self.dims@,
                stride == self.stride@,
                0 <= i <= dims.len(),
                rest == element_count(tail(dims, i as int)),
                left < rest,
                total <= usize::MAX,
                total == at + strided_offset(tail(dims, i as int), tail(stride, i as int), left as int),
            decreases dims.len() - i,
        {
            let dim: usize = self.dims[i];
            let ghost inner = element_count(tail(dims, i + 1)) as int;
            proof {
                lemma_tail_step(dims, i as int);
                assert(tail(stride, i as int).drop_first() =~= tail(stride, i + 1));
                assert(dim > 0 && inner > 0) by (nonlinear_arith)
                    requires
                        0 <= left < dim * inner,
                        dim >= 0,
                        inner >= 0,
                ;
                assert((dim * inner) / dim as int == inner) by (nonlinear_arith)
                    requires
                        dim > 0,
                        inner >= 0,
                ;
            }
            rest = rest / dim;
            let index: usize = left / rest;
            proof {
                assert(0 <= left as int % inner < inner && 0 <= left as int / inner) by (nonlinear_arith)
                    requires
                        left >= 0,
                        inner > 0,
                ;
                lemma_offset_nonnegative(tail(dims, i + 1), tail(stride, i + 1), left as int % inner);
                assert(0 <= index * stride[i as int]) by (nonlinear_arith)
                    requires
                        index >= 0,
                        stride[i as int] >= 0,
                ;
            }
            at = at + index * self.stride[i];
            left = left % rest;
            i = i + 1;
        }
        at
    }

    /// Whether dimensions and strides match, counts fit in a machine word, and all
    /// elements lie in a storage of length `len`.
    pub fn describes(&self, len: usize) -> (r: bool)
        ensures
            r == (self.wf() && self.fits(len as nat)),
    {
        if self.stride.len() != self.dims.len() || self.start_offset > len {
            return false;
        }
        let ghost dims = self.dims@;
        let ghost stride = self.stride@;
        let mut count: usize = 1;
        let mut reach: u128 = self.start_offset as u128;
        let mut beyond: bool = false;
        let mut i: usize = self.dims.len();
        assert(tail(dims, i as int) =~= Seq::<usize>::empty());
        assert(tail(stride, i as int) =~= Seq::<usize>::empty());
        while i > 0
            invariant
                dims == self.dims@,
                stride == self.stride@,
                dims.len() == stride.len(),
                i <= dims.len(),
                count == element_count(tail(dims, i as int)),
                forall|j: int|
                    i <= j <= dims.len() ==> #[trigger] element_count(tail(dims, j)) <= usize::MAX,
                count > 0 && !beyond ==> {
                    &&& reach == self.start_offset + span(tail(dims, i as int), tail(stride, i as int))
                    &&& reach <= len
                },
                count > 0 && beyond ==> self.start_offset + span(
                    tail(dims, i as int),
                    tail(stride, i as int),
                ) > len,
            decreases i,
        {
            i = i - 1;
            proof {
                lemma_tail_step(dims, i as int);
                assert(tail(stride, i as int).drop_first() =~= tail(stride, i + 1));
            }
            let dim: usize = self.dims[i];
            proof {
                assert(0 <= count * dim <= 0xffff_ffff_ffff_ffff * 0xffff_ffff_ffff_ffff)
                    by (nonlinear_arith)
                    requires
                        0 <= count <= 0xffff_ffff_ffff_ffff,
                        0 <= dim <= 0xffff_ffff_ffff_ffff,
                ;
            }
            let product: u128 = count as u128 * dim as u128;
            if product > usize::MAX as u128 {
                return false;
            }
            if dim > 0 && count > 0 {
                let step: u128 = (dim - 1) as u128;
                let s: u128 = self.stride[i] as u128;
                proof {
                    assert(0 <= step * s <= 0xffff_ffff_ffff_fffe * 0xffff_ffff_ffff_ffff)
                        by (nonlinear_arith)
                        requires
                            0 <= step <= 0xffff_ffff_ffff_fffe,
                            0 <= s <= 0xffff_ffff_ffff_ffff,
                    ;
                }
                if !beyond {
                    reach = reach + step * s;
                    if reach > len as u128 {
                        beyond = true;
                    }
                }
            }
            proof {
                assert(product > 0 ==> count > 0 && dim > 0) by (nonlinear_arith)
                    requires
                        product == count * dim,
                        count >= 0,
                        dim >= 0,
                ;
            }
            count = product as usize;
        }
        proof {
            assert(tail(dims, 0) =~= dims);
            assert(tail(stride, 0) =~= stride);
        }
        count == 0 || (!beyond && reach < len as u128)
    }

    /// The row-major layout of these dimensions from position zero on.
    pub fn contiguous(dims: Vec<usize>) -> (r: Layout)
        requires
            countable(dims@),
        ensures
            r.wf(),
            r.dims@ == dims@,
            r.start_offset == 0,
            forall|i: int|
                0 <= i < dims@.len() ==> #[trigger] r.stride@[i] == element_count(tail(dims@, i + 1)),
            row_major(r.dims@, r.stride@),
    {
        let mut stride: Vec<usize> = vec![1; dims.len()];
        let mut acc: usize = 1;
        let mut i: usize = dims.len();
        assert(tail(dims@, i as int) =~= Seq::<usize>::empty());
        while i > 0
            invariant
                countable(dims@),
                i <= dims@.len(),
                stride@.len() == dims@.len(),
                acc == element_count(tail(dims@, i as int)),
                forall|j: int|
                    i <= j < dims@.len() ==> #[trigger] stride@[j] == element_count(
                        tail(dims@, j + 1),
                    ),
            decreases i,
        {
            i = i - 1;
            proof {
                lemma_tail_step(dims@, i as int);
                assert(element_count(tail(dims@, i as int)) <= usize::MAX);
            }
            stride.set(i, acc);
            acc = acc * dims[i];
        }
        Layout { dims, stride, start_offset: 0 }
    }
}

/// The elements of a contiguous layout follow one another: element `k` lies `k`
/// positions behind the first.
pub proof fn law_contiguous_elements_follow(l: Layout, k: int)
    requires
        row_major(l.dims@, l.stride@),
        0 <= k < l.count(),
    ensures
        l.position(k) == l.start_offset + k,
{
    lemma_row_major_offset(l.dims@, l.stride@, k);
}

/// The place of an element in row-major order, by its index in every dimension.
pub open spec fn place_of(dims: Seq<usize>, index: Seq<int>) -> int
    decreases dims.len(),
{
    if dims.len() == 0 {
        0
    } else {
        place_of(dims.drop_last(), index.drop_last()) * dims.last() + index.last()
    }
}

/// The sum over all dimensions of the index times the stride.
pub open spec fn index_dot_stride(index: Seq<int>, stride: Seq<usize>) -> int
    decreases index.len(),
{
    if index.len() == 0 {
        0
    } else {
        index_dot_stride(index.drop_last(), stride.drop_last()) + index.last() * stride.last()
    }
}

/// An index in every dimension, each within the dimension.
pub open spec fn is_index(dims: Seq<usize>, index: Seq<int>) -> bool {
    &&& index.len() == dims.len()
    &&& forall|d: int| 0 <= d < dims.len() ==> 0 <= #[trigger] index[d] < dims[d]
}

/// The number of elements is the product of the dimensions: there is one element
/// without dimensions, and a further dimension multiplies the number.
pub proof fn law_element_count_is_the_product(dims: Seq<usize>, d: usize)
    ensures
        element_count(Seq::<usize>::empty()) == 1,
        element_count(dims.push(d)) == element_count(dims) * d,
    decreases dims.len(),
{
    let all = dims.push(d);
    if dims.len() == 0 {
        assert(all.drop_first() =~= Seq::<usize>::empty());
        reveal_with_fuel(element_count, 2);
        assert(d as nat * 1 == 1 * d as nat);
    } else {
        law_element_count_is_the_product(dims.drop_first(), d);
        assert(all.drop_first() =~= dims.drop_first().push(d));
        let c = element_count(dims.drop_first());
        assert(dims[0] as nat * (c * d as nat) == (dims[0] as nat * c) * d as nat)
            by (nonlinear_arith);
        assert(element_count(dims) == dims[0] as nat * c);
        assert(element_count(all) == dims[0] as nat * (c * d as nat));
    }
}

/// What the leading dimension adds to a place and to a dot product.
proof fn lemma_leading_dimension(dims: Seq<usize>, stride: Seq<usize>, index: Seq<int>)
    requires
        is_index(dims, index),
        stride.len() == dims.len(),
        dims.len() > 0,
    ensures
        place_of(dims, index) == index[0] * element_count(dims.drop_first()) + place_of(
            dims.drop_first(),
            index.drop_first(),
        ),
        index_dot_stride(index, stride) == index[0] * stride[0] + index_dot_stride(
            index.drop_first(),
            stride.drop_first(),
        ),
        is_index(dims.drop_first(), index.drop_first()),
    decreases dims.len(),
{
    let d1 = dims.drop_first();
    let i1 = index.drop_first();
    assert forall|d: int| 0 <= d < d1.len() implies 0 <= #[trigger] i1[d] < d1[d] by {
        assert(0 <= index[d + 1] < dims[d + 1]);
    }
    if dims.len() == 1 {
        assert(dims.drop_last() =~= Seq::<usize>::empty());
        assert(d1 =~= Seq::<usize>::empty());
        assert(element_count(d1) == 1);
        assert(place_of(dims.drop_last(), index.drop_last()) == 0);
        assert(0 * dims.last() == 0);
        assert(index[0] * 1 == index[0]);
        assert(place_of(d1, i1) == 0);
        assert(index_dot_stride(index.drop_last(), stride.drop_last()) == 0);
        assert(index_dot_stride(i1, stride.drop_first()) == 0);
    } else {
        let (d0, s0, i0) = (dims.drop_last(), stride.drop_last(), index.drop_last());
        assert forall|d: int| 0 <= d < d0.len() implies 0 <= #[trigger] i0[d] < d0[d] by {
            assert(0 <= index[d] < dims[d]);
        }
        lemma_leading_dimension(d0, s0, i0);
        assert(d0.drop_first() =~= d1.drop_last());
        assert(i0.drop_first() =~= i1.drop_last());
        assert(s0.drop_first() =~= stride.drop_first().drop_last());
        law_element_count_is_the_product(d1.drop_last(), dims.last());
        assert(d1.drop_last().push(dims.last()) =~= d1);
        let c = element_count(d1.drop_last()) as int;
        let p = place_of(d1.drop_last(), i1.drop_last());
        let m = dims.last() as int;
        assert((index[0] * c + p) * m == index[0] * (c * m) + p * m) by (nonlinear_arith);
    }
}

proof fn lemma_place_bound(dims: Seq<usize>, index: Seq<int>)
    requires
        is_index(dims, index),
    ensures
        0 <= place_of(dims, index) < element_count(dims),
    decreases dims.len(),
{
    if dims.len() > 0 {
        let (d0, i0) = (dims.drop_last(), index.drop_last());
        assert forall|d: int| 0 <= d < d0.len() implies 0 <= #[trigger] i0[d] < d0[d] by {
            assert(0 <= index[d] < dims[d]);
        }
        lemma_place_bound(d0, i0);
        law_element_count_is_the_product(d0, dims.last());
        assert(d0.push(dims.last()) =~= dims);
        assert(0 <= index[dims.len() - 1] < dims[dims.len() - 1]);
        let (p, c, m, x) = (
            place_of(d0, i0),
            element_count(d0) as int,
            dims.last() as int,
            index.last(),
        );
        assert(0 <= p * m + x < c * m) by (nonlinear_arith)
            requires
                0 <= p < c,
                0 <= x < m,
        ;
    }
}

proof fn lemma_offset_is_dot(dims: Seq<usize>, stride: Seq<usize>, index: Seq<int>)
    requires
        is_index(dims, index),
        stride.len() == dims.len(),
    ensures
        strided_offset(dims, stride, place_of(dims, index)) == index_dot_stride(index, stride),
    decreases dims.len(),
{
    if dims.len() > 0 {
        lemma_leading_dimension(dims, stride, index);
        let rest = element_count(dims.drop_first()) as int;
        let p = place_of(dims.drop_first(), index.drop_first());
        lemma_place_bound(dims.drop_first(), index.drop_first());
        lemma_offset_is_dot(dims.drop_first(), stride.drop_first(), index.drop_first());
        vstd::arithmetic::div_mod::lemma_fundamental_div_mod_converse(
            index[0] * rest + p,
            rest,
            index[0],
            p,
        );
    }
}

/// The element with a given index in every dimension lies, from the start, at the sum
/// over all dimensions of the index times the stride. This holds of every layout,
/// contiguous or not, with strides of zero too.
pub proof fn law_element_lies_at_its_strides(l: Layout, index: Seq<int>)
    requires
        l.stride@.len() == l.dims@.len(),
        is_index(l.dims@, index),
    ensures
        0 <= place_of(l.dims@, index) < l.count(),
        l.position(place_of(l.dims@, index)) == l.start_offset + index_dot_stride(index, l.stride@),
{
    lemma_place_bound(l.dims@, index);
    lemma_offset_is_dot(l.dims@, l.stride@, index);
}

/// Element `i` of a vector lies `i` strides from the start.
pub proof fn law_vector_positions(l: Layout, i: int)
    requires
        l.dims@.len() == 1,
        l.stride@.len() == 1,
        0 <= i < l.dims@[0],
    ensures
        l.count() == l.dims@[0],
        l.position(i) == l.start_offset + i * l.stride@[0],
{
    let index = seq![i];
    law_element_lies_at_its_strides(l, index);
    reveal_with_fuel(place_of, 2);
    reveal_with_fuel(index_dot_stride, 2);
    law_element_count_is_the_product(Seq::<usize>::empty(), l.dims@[0]);
    assert(Seq::<usize>::empty().push(l.dims@[0]) =~= l.dims@);
    assert(0 * l.dims@[0] == 0);
    assert(1 * l.dims@[0] == l.dims@[0]);
}

/// Row `i` and column `j` of a matrix lie `i` row strides and `j` column strides from
/// the start, strides of zero included.
pub proof fn law_matrix_positions(l: Layout, i: int, j: int)
    requires
        l.dims@.len() == 2,
        l.stride@.len() == 2,
        0 <= i < l.dims@[0],
        0 <= j < l.dims@[1],
    ensures
        l.count() == l.dims@[0] * l.dims@[1],
        0 <= i * l.dims@[1] + j < l.count(),
        l.position(i * l.dims@[1] + j) == l.start_offset + i * l.stride@[0] + j * l.stride@[1],
{
    let index = seq![i, j];
    law_element_lies_at_its_strides(l, index);
    lemma_matrix_count(l.dims@);
    assert(index.drop_last() =~= seq![i]);
    reveal_with_fuel(place_of, 3);
    reveal_with_fuel(index_dot_stride, 3);
    assert(0 * l.dims@[0] == 0);
}

/// A layout fits into a storage exactly if it starts within it and every element lies
/// within it.
pub proof fn law_layout_fits_exactly(l: Layout, len: nat)
    requires
        l.stride@.len() == l.dims@.len(),
    ensures
        l.fits(len) <==> l.start_offset <= len && forall|k: int|
            0 <= k < l.count() ==> 0 <= #[trigger] l.position(k) < len,
{
    if l.fits(len) {
        assert forall|k: int| 0 <= k < l.count() implies 0 <= #[trigger] l.position(k) < len by {
            lemma_offset_within_span(l.dims@, l.stride@, k);
        }
    }
    if l.count() > 0 {
        lemma_last_spans(l.dims@, l.stride@);
        let last = l.count() - 1;
        assert(l.position(last) == l.start_offset + span(l.dims@, l.stride@));
    }
}

proof fn lemma_last_spans(dims: Seq<usize>, stride: Seq<usize>)
    requires
        stride.len() == dims.len(),
        element_count(dims) > 0,
    ensures
        strided_offset(dims, stride, element_count(dims) - 1) == span(dims, stride),
    decreases dims.len(),
{
    if dims.len() > 0 {
        let rest = element_count(dims.drop_first()) as int;
        let d = dims[0] as int;
        assert(rest > 0 && d > 0) by (nonlinear_arith)
            requires
                0 < d * rest,
                rest >= 0,
                d >= 0,
        ;
        lemma_last_spans(dims.drop_first(), stride.drop_first());
        assert(d * rest - 1 == (d - 1) * rest + (rest - 1)) by (nonlinear_arith);
        vstd::arithmetic::div_mod::lemma_fundamental_div_mod_converse(
            d * rest - 1,
            rest,
            d - 1,
            rest - 1,
        );
    }
}

/// A layout with elements is contiguous exactly if its elements follow one another.
pub proof fn law_contiguous_exactly(l: Layout)
    requires
        l.stride@.len() == l.dims@.len(),
        l.count() > 0,
    ensures
        row_major(l.dims@, l.stride@) <==> forall|k: int|
            0 <= k < l.count() ==> #[trigger] l.position(k) == l.start_offset + k,
{
    if row_major(l.dims@, l.stride@) {
        assert forall|k: int| 0 <= k < l.count() implies #[trigger] l.position(k) == l.start_offset
            + k by {
            law_contiguous_elements_follow(l, k);
        }
    }
    if forall|k: int| 0 <= k < l.count() ==> #[trigger] l.position(k) == l.start_offset + k {
        assert forall|k: int| 0 <= k < l.count() implies #[trigger] strided_offset(
            l.dims@,
            l.stride@,
            k,
        ) == k by {
            assert(l.position(k) == l.start_offset + k);
        }
        lemma_followed_is_row_major(l.dims@, l.stride@);
    }
}

proof fn lemma_first_offset(dims: Seq<usize>, stride: Seq<usize>)
    requires
        stride.len() == dims.len(),
        element_count(dims) > 0,
    ensures
        strided_offset(dims, stride, 0) == 0,
    decreases dims.len(),
{
    if dims.len() > 0 {
        let rest = element_count(dims.drop_first()) as int;
        assert(rest > 0) by (nonlinear_arith)
            requires
                0 < dims[0] * rest,
                rest >= 0,
        ;
        lemma_first_offset(dims.drop_first(), stride.drop_first());
        assert(0int / rest == 0 && 0int % rest == 0) by (nonlinear_arith)
            requires
                rest > 0,
        ;
        assert(0 * stride[0] == 0);
    }
}

proof fn lemma_followed_is_row_major(dims: Seq<usize>, stride: Seq<usize>)
    requires
        stride.len() == dims.len(),
        element_count(dims) > 0,
        forall|k: int|
            0 <= k < element_count(dims) ==> #[trigger] strided_offset(dims, stride, k) == k,
    ensures
        row_major(dims, stride),
    decreases dims.len(),
{
    if dims.len() > 0 {
        let (d1, s1) = (dims.drop_first(), stride.drop_first());
        let rest = element_count(d1) as int;
        let d = dims[0] as int;
        assert(rest > 0 && d > 0 && rest <= d * rest) by (nonlinear_arith)
            requires
                0 < d * rest,
                rest >= 0,
                d >= 0,
        ;
        assert forall|k: int| 0 <= k < rest implies #[trigger] strided_offset(d1, s1, k) == k by {
            assert(strided_offset(dims, stride, k) == k);
            vstd::arithmetic::div_mod::lemma_small_mod(k as nat, rest as nat);
            vstd::arithmetic::div_mod::lemma_basic_div(k, rest);
            assert(0 * stride[0] == 0);
        }
        lemma_followed_is_row_major(d1, s1);
        if d > 1 {
            assert(rest < d * rest) by (nonlinear_arith)
                requires
                    d > 1,
                    rest > 0,
            ;
            lemma_first_offset(d1, s1);
            vstd::arithmetic::div_mod::lemma_fundamental_div_mod_converse(rest, rest, 1, 0);
            assert(strided_offset(dims, stride, rest) == rest);
            assert(1 * stride[0] == stride[0]);
        }
        assert forall|i: int| 0 <= i < dims.len() && dims[i] > 1 implies #[trigger] stride[i]
            == element_count(tail(dims, i + 1)) by {
            if i == 0 {
                assert(tail(dims, 1) =~= d1);
            } else {
                assert(s1[i - 1] == stride[i]);
                assert(d1[i - 1] == dims[i]);
                assert(tail(dims, i + 1) =~= tail(d1, i));
            }
        }
    }
}

/// [`Layout::offset`] gives the start plus the sum over all dimensions of the index times
/// the stride, for the element with the index `index` in every dimension.
pub proof fn law_offset_is_the_dot_product(l: Layout, index: Seq<int>, k: usize, r: usize)
    requires
        l.stride@.len() == l.dims@.len(),
        is_index(l.dims@, index),
        k == place_of(l.dims@, index),
        call_ensures(Layout::offset, (&l, k), r),
    ensures
        r == l.start_offset + index_dot_stride(index, l.stride@),
{
    law_element_lies_at_its_strides(l, index);
}

/// [`Layout::offset`] gives, for row `i` and column `j` of a matrix, `i` row strides and
/// `j` column strides from the start.
pub proof fn law_offset_in_a_matrix(l: Layout, i: int, j: int, k: usize, r: usize)
    requires
        l.dims@.len() == 2,
        l.stride@.len() == 2,
        0 <= i < l.dims@[0],
        0 <= j < l.dims@[1],
        k == i * l.dims@[1] + j,
        call_ensures(Layout::offset, (&l, k), r),
    ensures
        r == l.start_offset + i * l.stride@[0] + j * l.stride@[1],
{
    law_matrix_positions(l, i, j);
}

/// [`dims_count`] gives the product of the dimensions: one without dimensions, and for a
/// further dimension as many times more.
pub proof fn law_dims_count_multiplies(
    dims: Vec<usize>,
    more: Vec<usize>,
    d: usize,
    of_dims: usize,
    of_more: usize,
)
    requires
        call_ensures(dims_count, (&dims,), of_dims),
        call_ensures(dims_count, (&more,), of_more),
        more@ == dims@.push(d),
    ensures
        dims@.len() == 0 ==> of_dims == 1,
        of_more == of_dims * d,
{
    law_element_count_is_the_product(dims@, d);
    if dims@.len() == 0 {
        assert(dims@ =~= Seq::<usize>::empty());
    }
}

/// [`Layout::elem_count`] and [`dims_count`] agree.
pub proof fn law_layout_counts_its_dimensions(l: Layout, a: usize, b: usize)
    requires
        call_ensures(Layout::elem_count, (&l,), a),
        call_ensures(dims_count, (&l.dims,), b),
    ensures
        a == b,
{
}

/// [`same_dims`] tells whether two lists have one length and the same entries.
pub proof fn law_same_dims(a: Vec<usize>, b: Vec<usize>, r: bool)
    requires
        call_ensures(same_dims, (&a, &b), r),
    ensures
        r <==> a@.len() == b@.len() && forall|i: int|
            0 <= i < a@.len() ==> #[trigger] a@[i] == b@[i],
{
    if a@.len() == b@.len() && forall|i: int| 0 <= i < a@.len() ==> #[trigger] a@[i] == b@[i] {
        assert(a@ =~= b@);
    }
}

/// A layout with a further leading dimension is contiguous exactly if the rest is and, where
/// the dimension has more than one index, its stride is the number of elements of the rest.
/// A layout without dimensions is contiguous.
pub proof fn law_contiguity_by_dimension(
    l: Layout,
    rest: Layout,
    of_l: bool,
    of_rest: bool,
    count: usize,
)
    requires
        call_ensures(Layout::is_contiguous, (&l,), of_l),
        call_ensures(Layout::is_contiguous, (&rest,), of_rest),
        call_ensures(Layout::elem_count, (&rest,), count),
        l.stride@.len() == l.dims@.len(),
        l.dims@.len() > 0,
        rest.dims@ == l.dims@.drop_first(),
        rest.stride@ == l.stride@.drop_first(),
    ensures
        of_l <==> of_rest && (l.dims@[0] > 1 ==> l.stride@[0] == count),
        rest.dims@.len() == 0 ==> of_rest,
{
    let (dims, stride) = (l.dims@, l.stride@);
    assert(tail(dims, 1) =~= rest.dims@);
    if of_l {
        lemma_row_major_first(dims, stride);
    }
    if of_rest && (dims[0] > 1 ==> stride[0] == count) {
        assert forall|i: int| 0 <= i < dims.len() && dims[i] > 1 implies #[trigger] stride[i]
            == element_count(tail(dims, i + 1)) by {
            if i > 0 {
                assert(rest.stride@[i - 1] == stride[i]);
                assert(rest.dims@[i - 1] == dims[i]);
                assert(tail(rest.dims@, i) =~= tail(dims, i + 1));
            }
        }
    }
}

/// A matrix is contiguous exactly if its rows follow one another and so do its columns
/// within a row, where there is more than one of them.
pub proof fn law_contiguity_of_a_matrix(l: Layout, r: bool)
    requires
        call_ensures(Layout::is_contiguous, (&l,), r),
        l.dims@.len() == 2,
        l.stride@.len() == 2,
    ensures
        r <==> (l.dims@[0] > 1 ==> l.stride@[0] == l.dims@[1]) && (l.dims@[1] > 1
            ==> l.stride@[1] == 1),
{
    let (dims, stride) = (l.dims@, l.stride@);
    lemma_tail_step(dims, 1);
    assert(tail(dims, 2) =~= Seq::<usize>::empty());
    assert(element_count(tail(dims, 2)) == 1);
    assert(dims[1] as nat * 1 == dims[1]);
    assert(element_count(tail(dims, 1)) == dims[1]);
    if row_major(dims, stride) {
        assert(dims[0] > 1 ==> stride[0] == element_count(tail(dims, 1)));
        assert(dims[1] > 1 ==> stride[1] == element_count(tail(dims, 2)));
    }
}

/// The range of a contiguous layout starts at its start and is as long as there are
/// elements; any other layout has none.
pub proof fn law_contiguous_range(
    l: Layout,
    contiguous: bool,
    count: usize,
    r: Option<(usize, usize)>,
)
    requires
        call_ensures(Layout::is_contiguous, (&l,), contiguous),
        call_ensures(Layout::elem_count, (&l,), count),
        call_ensures(Layout::contiguous_offsets, (&l,), r),
        l.start_offset + count <= usize::MAX,
    ensures
        r is Some <==> contiguous,
        r matches Some((from, to)) ==> from == l.start_offset && to - from == count,
{
}

/// [`Layout::contiguous`] keeps the dimensions, starts at zero, has a stride of one in the
/// last dimension, and in every other as many times the next stride as the next dimension has
/// indices.
pub proof fn law_contiguous_strides(dims: Vec<usize>, r: Layout, i: int)
    requires
        call_ensures(Layout::contiguous, (dims,), r),
        0 <= i < dims@.len(),
    ensures
        r.dims@ == dims@,
        r.stride@.len() == dims@.len(),
        r.start_offset == 0,
        i == dims@.len() - 1 ==> r.stride@[i] == 1,
        i < dims@.len() - 1 ==> r.stride@[i] == r.stride@[i + 1] * dims@[i + 1],
{
    assert(r.stride@[i] == element_count(tail(dims@, i + 1)));
    if i == dims@.len() - 1 {
        assert(tail(dims@, i + 1) =~= Seq::<usize>::empty());
    } else {
        lemma_tail_step(dims@, i + 1);
        assert(r.stride@[i + 1] == element_count(tail(dims@, i + 2)));
    }
}

/// The largest index in every dimension.
pub open spec fn last_index(dims: Seq<usize>) -> Seq<int> {
    Seq::new(dims.len(), |d: int| dims[d] - 1)
}

proof fn lemma_last_index_spans(dims: Seq<usize>, stride: Seq<usize>)
    requires
        stride.len() == dims.len(),
        forall|d: int| 0 <= d < dims.len() ==> #[trigger] dims[d] > 0,
    ensures
        is_index(dims, last_index(dims)),
        index_dot_stride(last_index(dims), stride) == span(dims, stride),
        element_count(dims) > 0,
    decreases dims.len(),
{
    let index = last_index(dims);
    assert forall|d: int| 0 <= d < dims.len() implies 0 <= #[trigger] index[d] < dims[d] by {
        assert(dims[d] > 0);
    }
    if dims.len() > 0 {
        let (d1, s1) = (dims.drop_first(), stride.drop_first());
        assert forall|d: int| 0 <= d < d1.len() implies #[trigger] d1[d] > 0 by {
            assert(dims[d + 1] > 0);
        }
        lemma_last_index_spans(d1, s1);
        lemma_leading_dimension(dims, stride, index);
        assert(index.drop_first() =~= last_index(d1));
        assert(dims[0] as nat * element_count(d1) > 0) by (nonlinear_arith)
            requires
                dims[0] > 0,
                element_count(d1) > 0,
        ;
    }
}

proof fn lemma_positive_dims(dims: Seq<usize>)
    requires
        element_count(dims) > 0,
    ensures
        forall|d: int| 0 <= d < dims.len() ==> #[trigger] dims[d] > 0,
{
    assert forall|d: int| 0 <= d < dims.len() implies #[trigger] dims[d] > 0 by {
        if dims[d] == 0 {
            lemma_zero_dim(dims, d);
        }
    }
}

/// A layout that [`Layout::describes`] accepts for a storage reaches no element beyond it.
pub proof fn law_described_elements_lie_within(l: Layout, len: usize, index: Seq<int>)
    requires
        call_ensures(Layout::describes, (&l, len), true),
        is_index(l.dims@, index),
    ensures
        l.stride@.len() == l.dims@.len(),
        l.start_offset <= len,
        l.start_offset + index_dot_stride(index, l.stride@) < len,
{
    law_element_lies_at_its_strides(l, index);
    lemma_offset_within_span(l.dims@, l.stride@, place_of(l.dims@, index));
}

/// [`Layout::describes`] refuses a layout only for strides that do not match the dimensions,
/// a start or an element beyond the storage, or a count that no machine word holds.
pub proof fn law_layout_is_refused_for_cause(l: Layout, len: usize)
    requires
        call_ensures(Layout::describes, (&l, len), false),
    ensures
        ({
            ||| l.stride@.len() != l.dims@.len()
            ||| l.start_offset > len
            ||| exists|i: int|
                0 <= i <= l.dims@.len() && #[trigger] element_count(l.dims@.skip(i)) > usize::MAX
            ||| is_index(l.dims@, last_index(l.dims@)) && l.start_offset + index_dot_stride(
                last_index(l.dims@),
                l.stride@,
            ) >= len
        }),
{
    if !countable(l.dims@) {
        let i = choose|i: int|
            0 <= i <= l.dims@.len() && #[trigger] element_count(tail(l.dims@, i)) > usize::MAX;
        assert(tail(l.dims@, i) =~= l.dims@.skip(i));
        assert(element_count(l.dims@.skip(i)) > usize::MAX);
    }
    if l.stride@.len() == l.dims@.len() && l.count() > 0 {
        lemma_positive_dims(l.dims@);
        lemma_last_index_spans(l.dims@, l.stride@);
    }
}

proof fn lemma_trailing_dimension(
    dims: Seq<usize>,
    stride: Seq<usize>,
    d: usize,
    s: usize,
    k: int,
    j: int,
)
    requires
        stride.len() == dims.len(),
        0 <= k < element_count(dims),
        0 <= j < d,
    ensures
        strided_offset(dims.push(d), stride.push(s), k * d + j) == strided_offset(dims, stride, k)
            + j * s,
        0 <= k * d + j < element_count(dims.push(d)),
    decreases dims.len(),
{
    let (dims2, stride2) = (dims.push(d), stride.push(s));
    law_element_count_is_the_product(dims, d);
    let n = element_count(dims) as int;
    assert(0 <= k * d + j < n * d) by (nonlinear_arith)
        requires
            0 <= k < n,
            0 <= j < d,
    ;
    if dims.len() == 0 {
        assert(dims2.drop_first() =~= Seq::<usize>::empty());
        assert(element_count(dims2.drop_first()) == 1);
        assert(strided_offset(dims2.drop_first(), stride2.drop_first(), (k * d + j) % 1) == 0);
        assert(k == 0);
        assert(0 * d == 0);
        assert(j / 1 == j);
    } else {
        let c = element_count(dims.drop_first()) as int;
        law_element_count_is_the_product(dims.drop_first(), d);
        assert(dims2.drop_first() =~= dims.drop_first().push(d));
        assert(stride2.drop_first() =~= stride.drop_first().push(s));
        assert(c > 0) by (nonlinear_arith)
            requires
                0 <= k < dims[0] * c,
                c >= 0,
        ;
        let (q, m) = (k / c, k % c);
        vstd::arithmetic::div_mod::lemma_fundamental_div_mod(k, c);
        vstd::arithmetic::div_mod::lemma_mod_bound(k, c);
        assert(k * d + j == q * (c * d) + (m * d + j)) by (nonlinear_arith)
            requires
                k == c * q + m,
        ;
        assert(0 <= m * d + j < c * d) by (nonlinear_arith)
            requires
                0 <= m < c,
                0 <= j < d,
        ;
        vstd::arithmetic::div_mod::lemma_fundamental_div_mod_converse(
            k * d + j,
            c * d,
            q,
            m * d + j,
        );
        lemma_trailing_dimension(dims.drop_first(), stride.drop_first(), d, s, m, j);
    }
}

/// A further dimension at the end, of any size and with any stride, adds its index times its
/// stride: the element with the index `j` in it, behind element `k`, lies `j` strides from
/// where element `k` lies without it. Without dimensions the element lies at the start.
pub proof fn law_trailing_dimension_adds_its_stride(
    l: Layout,
    m: Layout,
    d: usize,
    s: usize,
    k: usize,
    j: int,
    kj: usize,
    of_l: usize,
    of_m: usize,
)
    requires
        l.stride@.len() == l.dims@.len(),
        m.dims@ == l.dims@.push(d),
        m.stride@ == l.stride@.push(s),
        m.start_offset == l.start_offset,
        k < l.count(),
        0 <= j < d,
        kj == k * d + j,
        call_ensures(Layout::offset, (&l, k), of_l),
        call_ensures(Layout::offset, (&m, kj), of_m),
    ensures
        of_m == of_l + j * s,
        l.dims@.len() == 0 ==> of_l == l.start_offset,
{
    lemma_trailing_dimension(l.dims@, l.stride@, d, s, k as int, j);
}

} // verus!
