//! The product of a sparse adjacency matrix and a dense feature matrix.
//!
//! The product itself is computed on the device by the sparse matrix library. Here
//! the operands are checked, and the calls into that library are laid out one
//! after the other: the caller makes each call and hands back what came of it.

use vstd::prelude::*;

use crate::dtype::DType;
use crate::error::{failure, Error, ErrorView};
use crate::inplace_ops::copy_dims;
use crate::layout::{lemma_matrix_count, lemma_row_major_span, row_major, Layout};
use crate::sparse::{CsrMatrix, ONE_BITS};

verus! {

/// How the elements of a dense matrix follow one another.
#[derive(Clone, Copy, Debug, PartialEq, Eq, Structural)]
pub enum DenseOrder {
    /// Row after row.
    Row,
    /// Column after column.
    Column,
}

/// Whether an operand is transposed.
#[derive(Clone, Copy, Debug, PartialEq, Eq, Structural)]
pub enum Operation {
    NonTranspose,
    Transpose,
}

/// How a product with compressed rows is computed.
#[derive(Clone, Copy, Debug, PartialEq, Eq, Structural)]
pub enum SpmmAlgorithm {
    /// The algorithm for row-major dense matrices.
    CsrAlg1,
    /// The algorithm for column-major dense matrices.
    CsrAlg2,
}

/// What is computed: `alpha * op_a(A) * op_b(B) + beta * C`. The factors are given by
/// their bit patterns at single precision.
#[derive(Clone, Copy, Debug, PartialEq, Eq, Structural)]
pub struct SpmmTerms {
    pub op_a: Operation,
    pub op_b: Operation,
    pub alpha: u32,
    pub beta: u32,
    /// The type that the product is computed in.
    pub compute: DType,
    pub algorithm: SpmmAlgorithm,
}

/// The plain product `1 * A * B + 0 * C` at single precision, of dense matrices in
/// row-major order.
pub open spec fn plain_product() -> SpmmTerms {
    SpmmTerms {
        op_a: Operation::NonTranspose,
        op_b: Operation::NonTranspose,
        alpha: ONE_BITS,
        beta: 0,
        compute: DType::F32,
        algorithm: SpmmAlgorithm::CsrAlg1,
    }
}

fn plain_terms() -> (r: SpmmTerms)
    ensures
        r == plain_product(),
{
    SpmmTerms {
        op_a: Operation::NonTranspose,
        op_b: Operation::NonTranspose,
        alpha: ONE_BITS,
        beta: 0,
        compute: DType::F32,
        algorithm: SpmmAlgorithm::CsrAlg1,
    }
}

/// A call into the sparse matrix library, with what is handed to it besides the
/// arrays.
#[derive(Clone, Copy, Debug, PartialEq, Eq, Structural)]
pub enum SpmmCall {
    /// Create the library handle.
    Create,
    /// Describe the sparse operand `A`: its size, the width and the base of its row
    /// pointers and column indices, and the type of its values.
    CreateCsr {
        rows: i64,
        cols: i64,
        nnz: i64,
        index_bits: u32,
        index_base: u32,
        values: DType,
    },
    /// Describe the dense operand `B`; `ld` is the distance between its rows.
    CreateDnMatB { rows: i64, cols: i64, ld: i64, values: DType, order: DenseOrder },
    /// Describe the result `C`; `ld` is the distance between its rows.
    CreateDnMatC { rows: i64, cols: i64, ld: i64, values: DType, order: DenseOrder },
    /// Ask for the size of the workspace in bytes.
    BufferSize { terms: SpmmTerms },
    /// Allocate the workspace.
    AllocWorkspace { len: usize },
    /// Compute the product.
    Multiply { terms: SpmmTerms },
    /// Release the description of `A`.
    DestroySpMat,
    /// Release the description of `B`.
    DestroyDnMatB,
    /// Release the description of `C`.
    DestroyDnMatC,
    /// Release the library handle.
    Destroy,
}

impl SpmmCall {
    /// What the call is named in a message.
    pub open spec fn spec_label(self) -> &'static str {
        match self {
            SpmmCall::Create => "cusparseCreate",
            SpmmCall::CreateCsr { .. } => "cusparseCreateCsr",
            SpmmCall::CreateDnMatB { .. } => "cusparseCreateDnMat(B)",
            SpmmCall::CreateDnMatC { .. } => "cusparseCreateDnMat(C)",
            SpmmCall::BufferSize { .. } => "cusparseSpMM_bufferSize",
            SpmmCall::AllocWorkspace { .. } => "workspace alloc",
            SpmmCall::Multiply { .. } => "cusparseSpMM",
            SpmmCall::DestroySpMat => "cusparseDestroySpMat",
            SpmmCall::DestroyDnMatB => "cusparseDestroyDnMat(B)",
            SpmmCall::DestroyDnMatC => "cusparseDestroyDnMat(C)",
            SpmmCall::Destroy => "cusparseDestroy",
        }
    }

    /// What the call is named in a message.
    pub fn label(self) -> (r: &'static str)
        ensures
            r == self.spec_label(),
    {
        match self {
            SpmmCall::Create => "cusparseCreate",
            SpmmCall::CreateCsr { .. } => "cusparseCreateCsr",
            SpmmCall::CreateDnMatB { .. } => "cusparseCreateDnMat(B)",
            SpmmCall::CreateDnMatC { .. } => "cusparseCreateDnMat(C)",
            SpmmCall::BufferSize { .. } => "cusparseSpMM_bufferSize",
            SpmmCall::AllocWorkspace { .. } => "workspace alloc",
            SpmmCall::Multiply { .. } => "cusparseSpMM",
            SpmmCall::DestroySpMat => "cusparseDestroySpMat",
            SpmmCall::DestroyDnMatB => "cusparseDestroyDnMat(B)",
            SpmmCall::DestroyDnMatC => "cusparseDestroyDnMat(C)",
            SpmmCall::Destroy => "cusparseDestroy",
        }
    }
}

/// How far the calls for one product have come.
#[derive(Clone, Copy, Debug, PartialEq, Eq, Structural)]
pub struct SpmmRun {
    pub n_rows: i64,
    pub n_cols: i64,
    pub nnz: i64,
    pub d: i64,
    /// How many calls have succeeded.
    pub done: usize,
    /// The size of the workspace, once it is known.
    pub workspace: usize,
}

/// The number of calls for one product.
pub const SPMM_CALLS: usize = 11;

impl SpmmRun {
    /// The call that follows after `i` successful ones.
    pub open spec fn call(self, i: int) -> SpmmCall {
        if i == 0 {
            SpmmCall::Create
        } else if i == 1 {
            SpmmCall::CreateCsr {
                rows: self.n_rows,
                cols: self.n_cols,
                nnz: self.nnz,
                index_bits: 32,
                index_base: 0,
                values: DType::F32,
            }
        } else if i == 2 {
            SpmmCall::CreateDnMatB {
                rows: self.n_cols,
                cols: self.d,
                ld: self.d,
                values: DType::F32,
                order: DenseOrder::Row,
            }
        } else if i == 3 {
            SpmmCall::CreateDnMatC {
                rows: self.n_rows,
                cols: self.d,
                ld: self.d,
                values: DType::F32,
                order: DenseOrder::Row,
            }
        } else if i == 4 {
            SpmmCall::BufferSize { terms: plain_product() }
        } else if i == 5 {
            SpmmCall::AllocWorkspace { len: self.workspace }
        } else if i == 6 {
            SpmmCall::Multiply { terms: plain_product() }
        } else if i == 7 {
            SpmmCall::DestroySpMat
        } else if i == 8 {
            SpmmCall::DestroyDnMatB
        } else if i == 9 {
            SpmmCall::DestroyDnMatC
        } else {
            SpmmCall::Destroy
        }
    }

    /// The run after its next call succeeded with the answer `answer`. Only the
    /// size of the workspace is kept of the answers; the workspace is never empty.
    pub open spec fn advanced(self, answer: usize) -> SpmmRun {
        SpmmRun {
            done: (self.done + 1) as usize,
            workspace: if self.done == 4 {
                if answer < 1 {
                    1
                } else {
                    answer
                }
            } else {
                self.workspace
            },
            ..self
        }
    }

    /// The next call to make, and `None` once the product is complete.
    pub fn next(&self) -> (r: Option<SpmmCall>)
        ensures
            r == (if self.done < SPMM_CALLS {
                Some(self.call(self.done as int))
            } else {
                None
            }),
    {
        match self.done {
            0 => Some(SpmmCall::Create),
            1 => Some(
                SpmmCall::CreateCsr {
                    rows: self.n_rows,
                    cols: self.n_cols,
                    nnz: self.nnz,
                    index_bits: 32,
                    index_base: 0,
                    values: DType::F32,
                },
            ),
            2 => Some(
                SpmmCall::CreateDnMatB {
                    rows: self.n_cols,
                    cols: self.d,
                    ld: self.d,
                    values: DType::F32,
                    order: DenseOrder::Row,
                },
            ),
            3 => Some(
                SpmmCall::CreateDnMatC {
                    rows: self.n_rows,
                    cols: self.d,
                    ld: self.d,
                    values: DType::F32,
                    order: DenseOrder::Row,
                },
            ),
            4 => Some(SpmmCall::BufferSize { terms: plain_terms() }),
            5 => Some(SpmmCall::AllocWorkspace { len: self.workspace }),
            6 => Some(SpmmCall::Multiply { terms: plain_terms() }),
            7 => Some(SpmmCall::DestroySpMat),
            8 => Some(SpmmCall::DestroyDnMatB),
            9 => Some(SpmmCall::DestroyDnMatC),
            10 => Some(SpmmCall::Destroy),
            _ => None,
        }
    }

    /// Takes what came of the next call: an answer, which matters only where the
    /// size of the workspace was asked for, or the cause of a failure. A failure is
    /// returned as the error of the product and leaves the run as it was; the caller
    /// makes no further call.
    pub fn advance(&mut self, reply: Result<usize, String>) -> (r: Result<(), Error>)
        requires
            old(self).done < SPMM_CALLS,
        ensures
            match reply {
                Ok(answer) => r is Ok && *final(self) == old(self).advanced(answer),
                Err(cause) => {
                    &&& failure(r) == Some(
                        ErrorView::Cusparse {
                            call: old(self).call(old(self).done as int).spec_label()@,
                            cause: cause@,
                        },
                    )
                    &&& *final(self) == *old(self)
                },
            },
    {
        match reply {
            Ok(answer) => {
                if self.done == 4 {
                    self.workspace = if answer < 1 {
                        1
                    } else {
                        answer
                    };
                }
                self.done = self.done + 1;
                Ok(())
            },
            Err(cause) => {
                let call = match self.next() {
                    Some(call) => call.label(),
                    None => "",
                };
                Err(Error::Cusparse { call, cause })
            },
        }
    }
}

/// What a product needs: the range of features to read, the length and the shape of
/// the result, and the run of calls.
#[derive(Clone, Copy, Debug, PartialEq, Eq, Structural)]
pub struct SpmmPlan {
    pub feat_from: usize,
    pub feat_to: usize,
    pub out_elems: usize,
    pub out_rows: usize,
    pub out_cols: usize,
    pub run: SpmmRun,
}

impl CsrMatrix {
    /// Why the matrix cannot be multiplied with these features, if it cannot.
    pub open spec fn spmm_failure(&self, feat_dtype: DType, feat_l: Layout) -> Option<ErrorView> {
        if feat_l.dims@.len() != 2 {
            Some(ErrorView::FeatureShape { dims: feat_l.dims@ })
        } else if feat_l.dims@[0] != self.n_cols {
            Some(ErrorView::FeatureRows { rows: feat_l.dims@[0], cols: self.n_cols })
        } else if feat_dtype != DType::F32 {
            Some(ErrorView::FeatureDType { dtype: feat_dtype })
        } else if !row_major(feat_l.dims@, feat_l.stride@) {
            Some(ErrorView::RequiresContiguous { op: "gnn-spmm"@ })
        } else {
            None
        }
    }

    /// Prepares `out = A * feat`, where `A` is this matrix and `feat` are features
    /// of single precision, one contiguous row for each column of `A`, in a storage
    /// of length `feat_len`.
    pub fn spmm(&self, feat_dtype: DType, feat_l: &Layout, feat_len: usize) -> (r: Result<
        SpmmPlan,
        Error,
    >)
        requires
            feat_l.wf(),
            feat_l.fits(feat_len as nat),
            self.spmm_failure(feat_dtype, *feat_l) is None ==> {
                &&& self.n_rows * feat_l.dims@[1] <= usize::MAX
                &&& feat_l.dims@[1] <= i64::MAX
                &&& self.n_rows <= i64::MAX
                &&& self.n_cols <= i64::MAX
                &&& self.nnz <= i64::MAX
            },
        ensures
            failure(r) == self.spmm_failure(feat_dtype, *feat_l),
            r matches Ok(plan) ==> {
                let d = feat_l.dims@[1];
                &&& plan.feat_from == feat_l.start_offset
                &&& plan.feat_to == feat_l.start_offset + self.n_cols * d
                &&& plan.feat_to <= feat_len
                &&& plan.out_elems == self.n_rows * d
                &&& plan.out_rows == self.n_rows
                &&& plan.out_cols == d
                &&& plan.run.n_rows == self.n_rows
                &&& plan.run.n_cols == self.n_cols
                &&& plan.run.nnz == self.nnz
                &&& plan.run.d == d
                &&& plan.run.done == 0
                &&& plan.run.workspace == 0
            },
    {
        if feat_l.dims.len() != 2 {
            return Err(Error::FeatureShape { dims: copy_dims(&feat_l.dims) });
        }
        let n: usize = feat_l.dims[0];
        let d: usize = feat_l.dims[1];
        if n != self.n_cols {
            return Err(Error::FeatureRows { rows: n, cols: self.n_cols });
        }
        match feat_dtype {
            DType::F32 => {},
            _ => return Err(Error::FeatureDType { dtype: feat_dtype }),
        }
        proof {
            lemma_matrix_count(feat_l.dims@);
            if row_major(feat_l.dims@, feat_l.stride@) && feat_l.count() > 0 {
                lemma_row_major_span(feat_l.dims@, feat_l.stride@);
            }
        }
        match feat_l.contiguous_offsets() {
            None => Err(Error::RequiresContiguous { op: "gnn-spmm" }),
            Some((feat_from, feat_to)) => {
                let out_elems: usize = self.n_rows * d;
                Ok(
                    SpmmPlan {
                        feat_from,
                        feat_to,
                        out_elems,
                        out_rows: self.n_rows,
                        out_cols: d,
                        run: SpmmRun {
                            n_rows: self.n_rows as i64,
                            n_cols: self.n_cols as i64,
                            nnz: self.nnz as i64,
                            d: d as i64,
                            done: 0,
                            workspace: 0,
                        },
                    },
                )
            },
        }
    }
}

/// What the calls create and release.
#[derive(Clone, Copy, Debug, PartialEq, Eq, Structural)]
pub enum SpmmObject {
    /// The library handle.
    Handle,
    /// The description of the sparse operand.
    MatA,
    /// The description of the dense operand.
    MatB,
    /// The description of the result.
    MatC,
}

impl SpmmCall {
    /// The call creates the object.
    pub open spec fn creates(self, o: SpmmObject) -> bool {
        match self {
            SpmmCall::Create => o == SpmmObject::Handle,
            SpmmCall::CreateCsr { .. } => o == SpmmObject::MatA,
            SpmmCall::CreateDnMatB { .. } => o == SpmmObject::MatB,
            SpmmCall::CreateDnMatC { .. } => o == SpmmObject::MatC,
            _ => false,
        }
    }

    /// The call releases the object.
    pub open spec fn destroys(self, o: SpmmObject) -> bool {
        match self {
            SpmmCall::Destroy => o == SpmmObject::Handle,
            SpmmCall::DestroySpMat => o == SpmmObject::MatA,
            SpmmCall::DestroyDnMatB => o == SpmmObject::MatB,
            SpmmCall::DestroyDnMatC => o == SpmmObject::MatC,
            _ => false,
        }
    }

    /// The call needs the object: the two calls that compute need all of them, and a
    /// release needs what it releases.
    pub open spec fn needs(self, o: SpmmObject) -> bool {
        self is BufferSize || self is Multiply || self.destroys(o)
    }
}

impl SpmmRun {
    /// The object exists after the first `i` calls.
    pub open spec fn alive(self, i: int, o: SpmmObject) -> bool
        decreases i,
    {
        if i <= 0 {
            false
        } else if self.call(i - 1).creates(o) {
            true
        } else if self.call(i - 1).destroys(o) {
            false
        } else {
            self.alive(i - 1, o)
        }
    }

    /// The run after calls that succeeded with these answers.
    pub open spec fn after(self, answers: Seq<usize>) -> SpmmRun
        decreases answers.len(),
    {
        if answers.len() == 0 {
            self
        } else {
            self.after(answers.drop_last()).advanced(answers.last())
        }
    }

    /// Every call finds what it needs, nothing is created or released twice, and a
    /// complete run leaves nothing behind.
    pub proof fn law_objects_are_released(self, i: int, o: SpmmObject)
        requires
            0 <= i < SPMM_CALLS,
        ensures
            self.call(i).needs(o) ==> self.alive(i, o),
            self.call(i).creates(o) ==> !self.alive(i, o),
            !self.alive(SPMM_CALLS as int, o),
    {
        reveal_with_fuel(SpmmRun::alive, 12);
    }

    /// A run whose calls all succeed makes the calls in order, one after the other;
    /// the workspace that it allocates has the size that was asked for, and at
    /// least one byte.
    pub proof fn law_calls_follow_in_order(self, answers: Seq<usize>)
        requires
            self.done == 0,
            answers.len() <= SPMM_CALLS,
        ensures
            self.after(answers).done == answers.len(),
            self.after(answers).n_rows == self.n_rows,
            self.after(answers).n_cols == self.n_cols,
            self.after(answers).nnz == self.nnz,
            self.after(answers).d == self.d,
            answers.len() > 4 ==> self.after(answers).workspace == if answers[4] < 1 {
                1
            } else {
                answers[4]
            },
        decreases answers.len(),
    {
        if answers.len() > 0 {
            self.law_calls_follow_in_order(answers.drop_last());
        }
    }
}

/// The calls of a product describe the matrix and the features that were handed in. After
/// [`CsrMatrix::spmm`] gave `plan` on the matrix `m` and features with the layout `feat`,
/// and after calls that succeeded with `answers`, `next` is the call that
/// [`SpmmRun::next`] gives. The sparse operand has the rows, columns and entries of `m`,
/// the dense operand as many rows as `m` has columns, the result as many rows as `m`, and
/// both as many columns as the features, one row directly behind the other.
pub proof fn law_calls_describe_the_operands(
    m: CsrMatrix,
    dtype: DType,
    feat: Layout,
    len: usize,
    plan: SpmmPlan,
    answers: Seq<usize>,
    next: Option<SpmmCall>,
)
    requires
        call_ensures(CsrMatrix::spmm, (&m, dtype, &feat, len), Ok(plan)),
        answers.len() <= 11,
        call_ensures(SpmmRun::next, (&plan.run.after(answers),), next),
    ensures
        feat.dims@.len() == 2,
        feat.dims@[0] == m.n_cols,
        plan.feat_from == feat.start_offset,
        plan.feat_to - plan.feat_from == m.n_cols * feat.dims@[1],
        plan.feat_to <= len,
        plan.out_rows == m.n_rows,
        plan.out_cols == feat.dims@[1],
        plan.out_elems == m.n_rows * feat.dims@[1],
        answers.len() == 1 ==> (next matches Some(SpmmCall::CreateCsr { rows, cols, nnz, .. })
            && rows == m.n_rows && cols == m.n_cols && nnz == m.nnz),
        answers.len() == 2 ==> (next matches Some(SpmmCall::CreateDnMatB { rows, cols, ld, .. })
            && rows == m.n_cols && cols == feat.dims@[1] && ld == feat.dims@[1]),
        answers.len() == 3 ==> (next matches Some(SpmmCall::CreateDnMatC { rows, cols, ld, .. })
            && rows == m.n_rows && cols == feat.dims@[1] && ld == feat.dims@[1]),
        answers.len() == 5 ==> (next matches Some(SpmmCall::AllocWorkspace { len: size }) && size
            == if answers[4] == 0 {
            1
        } else {
            answers[4]
        }),
        next is None <==> answers.len() == 11,
{
    plan.run.law_calls_follow_in_order(answers);
}

/// The operands that a run describes fit one another: `B` has as many rows as `A` has
/// columns, `C` as many rows as `A`, `B` and `C` as many columns. The sparse operand has
/// the run's rows, columns and entries, with zero-based 32-bit indices; all values are of
/// single precision and the dense operands are row-major.
pub proof fn law_described_operands_fit(run: SpmmRun)
    ensures
        match (run.call(1), run.call(2), run.call(3)) {
            (
                SpmmCall::CreateCsr { rows, cols, nnz, index_bits, index_base, values },
                SpmmCall::CreateDnMatB {
                    rows: b_rows,
                    cols: b_cols,
                    ld: b_ld,
                    values: b_values,
                    order: b_order,
                },
                SpmmCall::CreateDnMatC {
                    rows: c_rows,
                    cols: c_cols,
                    ld: c_ld,
                    values: c_values,
                    order: c_order,
                },
            ) => {
                &&& b_rows == cols
                &&& c_rows == rows
                &&& b_cols == c_cols
                &&& b_ld == b_cols
                &&& c_ld == c_cols
                &&& rows == run.n_rows
                &&& cols == run.n_cols
                &&& nnz == run.nnz
                &&& b_cols == run.d
                &&& index_bits == 32
                &&& index_base == 0
                &&& values == DType::F32
                &&& b_values == DType::F32
                &&& c_values == DType::F32
                &&& b_order == DenseOrder::Row
                &&& c_order == DenseOrder::Row
            },
            _ => false,
        },
{
}

/// The workspace is sized for the product that is computed: one times `A` times `B` plus
/// zero times `C`, neither operand transposed, at single precision, by the algorithm for
/// row-major matrices.
pub proof fn law_product_is_plain(run: SpmmRun)
    ensures
        match (run.call(4), run.call(6)) {
            (SpmmCall::BufferSize { terms: sized }, SpmmCall::Multiply { terms: computed }) => {
                &&& sized == computed
                &&& computed.op_a == Operation::NonTranspose
                &&& computed.op_b == Operation::NonTranspose
                &&& computed.alpha == 0x3f80_0000u32
                &&& computed.beta == 0
                &&& computed.compute == DType::F32
                &&& computed.algorithm == SpmmAlgorithm::CsrAlg1
            },
            _ => false,
        },
        run.call(5) matches SpmmCall::AllocWorkspace { len } && len == run.workspace,
{
}

/// A run creates the handle first and releases, in this order, the descriptions of `A`,
/// `B` and `C` and the handle; it consists of eleven calls.
pub proof fn law_handle_comes_first_and_goes_last(run: SpmmRun)
    ensures
        SPMM_CALLS == 11,
        run.call(0) == SpmmCall::Create,
        run.call(7) == SpmmCall::DestroySpMat,
        run.call(8) == SpmmCall::DestroyDnMatB,
        run.call(9) == SpmmCall::DestroyDnMatC,
        run.call(10) == SpmmCall::Destroy,
{
}

/// A successful call counts as one more, and the answer to the fifth call, or one if it is
/// zero, is the size of the workspace from then on.
pub proof fn law_success_counts_one_call(run: SpmmRun, answer: usize)
    requires
        run.done < 11,
    ensures
        run.advanced(answer).done == run.done + 1,
        run.advanced(answer).n_rows == run.n_rows,
        run.advanced(answer).n_cols == run.n_cols,
        run.advanced(answer).nnz == run.nnz,
        run.advanced(answer).d == run.d,
        run.done != 4 ==> run.advanced(answer).workspace == run.workspace,
        run.done == 4 && answer > 0 ==> run.advanced(answer).workspace == answer,
        run.done == 4 && answer == 0 ==> run.advanced(answer).workspace == 1,
{
}

/// Every call is named in messages by the function of the library that it stands for, with
/// the operand where two calls share one.
pub proof fn law_call_labels(call: SpmmCall, label: &'static str)
    requires
        call_ensures(SpmmCall::label, (call,), label),
    ensures
        label@ == match call {
            SpmmCall::Create => "cusparseCreate"@,
            SpmmCall::CreateCsr { .. } => "cusparseCreateCsr"@,
            SpmmCall::CreateDnMatB { .. } => "cusparseCreateDnMat(B)"@,
            SpmmCall::CreateDnMatC { .. } => "cusparseCreateDnMat(C)"@,
            SpmmCall::BufferSize { .. } => "cusparseSpMM_bufferSize"@,
            SpmmCall::AllocWorkspace { .. } => "workspace alloc"@,
            SpmmCall::Multiply { .. } => "cusparseSpMM"@,
            SpmmCall::DestroySpMat => "cusparseDestroySpMat"@,
            SpmmCall::DestroyDnMatB => "cusparseDestroyDnMat(B)"@,
            SpmmCall::DestroyDnMatC => "cusparseDestroyDnMat(C)"@,
            SpmmCall::Destroy => "cusparseDestroy"@,
        },
{
}

/// A failed call leaves the run as it was and is told by the name of the call that was to be
/// made, with the cause; a successful one counts, and the answer to the fifth call sets the
/// size of the workspace, which is one at least.
pub proof fn law_replies_are_taken(
    run: &mut SpmmRun,
    reply: Result<usize, String>,
    r: Result<(), Error>,
    next: Option<SpmmCall>,
    label: &'static str,
)
    requires
        call_ensures(SpmmRun::next, (&*run,), next),
        run.done < 11,
        call_ensures(SpmmCall::label, (next->Some_0,), label),
        call_ensures(SpmmRun::advance, (run, reply), r),
    ensures
        final(run).n_rows == old(run).n_rows,
        final(run).n_cols == old(run).n_cols,
        final(run).nnz == old(run).nnz,
        final(run).d == old(run).d,
        reply matches Err(cause) ==> {
            &&& *final(run) == *old(run)
            &&& r matches Err(Error::Cusparse { call, cause: c }) && call@ == label@ && c@ == cause@
        },
        reply matches Ok(answer) ==> {
            &&& r is Ok
            &&& final(run).done == old(run).done + 1
            &&& old(run).done != 4 ==> final(run).workspace == old(run).workspace
            &&& old(run).done == 4 && answer > 0 ==> final(run).workspace == answer
            &&& old(run).done == 4 && answer == 0 ==> final(run).workspace == 1
        },
{
}

/// [`CsrMatrix::spmm`] refuses its operands for the first of these that holds: the features
/// are no matrix, they do not have a row for each column, they are not of single precision,
/// they are not contiguous.
pub proof fn law_spmm_refusals(
    m: CsrMatrix,
    dtype: DType,
    feat: Layout,
    len: usize,
    r: Result<SpmmPlan, Error>,
)
    requires
        call_ensures(CsrMatrix::spmm, (&m, dtype, &feat, len), r),
    ensures
        if feat.dims@.len() != 2 {
            r matches Err(Error::FeatureShape { dims }) && dims@ == feat.dims@
        } else if feat.dims@[0] != m.n_cols {
            r matches Err(Error::FeatureRows { rows, cols }) && rows == feat.dims@[0] && cols
                == m.n_cols
        } else if dtype != DType::F32 {
            r matches Err(Error::FeatureDType { dtype: t }) && t == dtype
        } else if !row_major(feat.dims@, feat.stride@) {
            r matches Err(Error::RequiresContiguous { op }) && op@ == "gnn-spmm"@
        } else {
            r is Ok
        },
{
}

} // verus!
