//! Why an operation was refused.

use vstd::prelude::*;
use vstd::string::StringExecFns;

use crate::dtype::DType;
use crate::text::{bracketed, decimal, push_bracketed, push_decimal};

verus! {

/// Why an operation on tensors or matrices was refused.
#[derive(Debug)]
pub enum Error {
    /// The operation takes contiguous tensors only.
    RequiresContiguous { op: &'static str },
    /// The operands of an operation differ in shape.
    ShapeMismatchBinaryOp { lhs: Vec<usize>, rhs: Vec<usize>, op: &'static str },
    /// The operands of an operation differ in type.
    DTypeMismatchBinaryOp { left: DType, right: DType, op: &'static str },
    /// The tensor to be modified shares its storage with another.
    SharedStorage { op: &'static str },
    /// The operands of an in-place kernel differ in type, or the kernel does not take the type.
    KernelDType { op: &'static str },
    /// The operands of a rectified sum are not of one floating-point type.
    AddReluDType,
    /// An edge list does not have two rows.
    EdgeIndexShape { dims: Vec<usize> },
    /// An edge ends at a node that does not exist.
    DestinationOutOfRange { index: usize, n_nodes: usize },
    /// A feature matrix does not have two dimensions.
    FeatureShape { dims: Vec<usize> },
    /// A feature matrix does not have a row for each column of the sparse matrix.
    FeatureRows { rows: usize, cols: usize },
    /// A feature matrix is not of single precision.
    FeatureDType { dtype: DType },
    /// A call into the sparse matrix library failed.
    Cusparse { call: &'static str, cause: String },
    /// An edge list lacks a row.
    EdgeRow { row: usize, dims: Vec<usize> },
    /// A tensor does not have the expected number of dimensions.
    UnexpectedRank { expected: usize, dims: Vec<usize> },
    /// An index lies beyond what it selects from.
    InvalidIndex { index: usize, size: usize, op: &'static str },
    /// The operation does not take tensors of this type.
    UnsupportedDTypeForOp { dtype: DType, op: &'static str },
}

/// An error with its texts and lists as sequences.
pub ghost enum ErrorView {
    RequiresContiguous { op: Seq<char> },
    ShapeMismatchBinaryOp { lhs: Seq<usize>, rhs: Seq<usize>, op: Seq<char> },
    DTypeMismatchBinaryOp { left: DType, right: DType, op: Seq<char> },
    SharedStorage { op: Seq<char> },
    KernelDType { op: Seq<char> },
    AddReluDType,
    EdgeIndexShape { dims: Seq<usize> },
    DestinationOutOfRange { index: usize, n_nodes: usize },
    FeatureShape { dims: Seq<usize> },
    FeatureRows { rows: usize, cols: usize },
    FeatureDType { dtype: DType },
    Cusparse { call: Seq<char>, cause: Seq<char> },
    EdgeRow { row: usize, dims: Seq<usize> },
    UnexpectedRank { expected: usize, dims: Seq<usize> },
    InvalidIndex { index: usize, size: usize, op: Seq<char> },
    UnsupportedDTypeForOp { dtype: DType, op: Seq<char> },
}

impl View for Error {
    type V = ErrorView;

    open spec fn view(&self) -> ErrorView {
        match *self {
            Error::RequiresContiguous { op } => ErrorView::RequiresContiguous { op: op@ },
            Error::ShapeMismatchBinaryOp { lhs, rhs, op } => ErrorView::ShapeMismatchBinaryOp {
                lhs: lhs@,
                rhs: rhs@,
                op: op@,
            },
            Error::DTypeMismatchBinaryOp { left, right, op } => ErrorView::DTypeMismatchBinaryOp {
                left,
                right,
                op: op@,
            },
            Error::SharedStorage { op } => ErrorView::SharedStorage { op: op@ },
            Error::KernelDType { op } => ErrorView::KernelDType { op: op@ },
            Error::AddReluDType => ErrorView::AddReluDType,
            Error::EdgeIndexShape { dims } => ErrorView::EdgeIndexShape { dims: dims@ },
            Error::DestinationOutOfRange { index, n_nodes } => ErrorView::DestinationOutOfRange {
                index,
                n_nodes,
            },
            Error::FeatureShape { dims } => ErrorView::FeatureShape { dims: dims@ },
            Error::FeatureRows { rows, cols } => ErrorView::FeatureRows { rows, cols },
            Error::FeatureDType { dtype } => ErrorView::FeatureDType { dtype },
            Error::Cusparse { call, cause } => ErrorView::Cusparse { call: call@, cause: cause@ },
            Error::EdgeRow { row, dims } => ErrorView::EdgeRow { row, dims: dims@ },
            Error::UnexpectedRank { expected, dims } => ErrorView::UnexpectedRank {
                expected,
                dims: dims@,
            },
            Error::InvalidIndex { index, size, op } => ErrorView::InvalidIndex {
                index,
                size,
                op: op@,
            },
            Error::UnsupportedDTypeForOp { dtype, op } => ErrorView::UnsupportedDTypeForOp {
                dtype,
                op: op@,
            },
        }
    }
}

impl ErrorView {
    /// The message that tells a user of the error.
    pub open spec fn text(self) -> Seq<char> {
        match self {
            ErrorView::RequiresContiguous { op } => op + " only supports contiguous tensors"@,
            ErrorView::ShapeMismatchBinaryOp { lhs, rhs, op } => "shape mismatch in "@ + op
                + ", lhs: "@ + bracketed(lhs) + ", rhs: "@ + bracketed(rhs),
            ErrorView::DTypeMismatchBinaryOp { left, right, op } => "dtype mismatch in "@ + op
                + ", lhs: "@ + left.spec_name()@ + ", rhs: "@ + right.spec_name()@,
            ErrorView::SharedStorage { op } => "in-place op '"@ + op
                + "' requires unique ownership of storage (Arc count > 1)"@,
            ErrorView::KernelDType { op } => "dtype mismatch or unsupported dtype in "@ + op,
            ErrorView::AddReluDType => "add_relu: unsupported dtype combination"@,
            ErrorView::EdgeIndexShape { dims } => "CsrMatrix::from_edge_index: edge_index must be [2, E], got "@
                + bracketed(dims),
            ErrorView::DestinationOutOfRange { index, n_nodes } => "CsrMatrix::from_edge_index: dst index "@
                + decimal(index as nat) + " out of range [0, "@ + decimal(n_nodes as nat) + ")"@,
            ErrorView::FeatureShape { dims } => "CsrMatrix::spmm: feat must be [N, D], got "@
                + bracketed(dims),
            ErrorView::FeatureRows { rows, cols } => "CsrMatrix::spmm: feat rows "@
                + decimal(rows as nat) + " != matrix cols "@ + decimal(cols as nat),
            ErrorView::FeatureDType { dtype } => "CsrMatrix::spmm: only f32 feat is supported (got "@
                + dtype.spec_name()@ + "); cast feat to f32 before calling gnn_spmm"@,
            ErrorView::Cusparse { call, cause } => call + ": "@ + cause,
            ErrorView::EdgeRow { row, dims } => "edge_index has no row "@ + decimal(row as nat)
                + ", got "@ + bracketed(dims),
            ErrorView::UnexpectedRank { expected, dims } => "unexpected rank, expected: "@
                + decimal(expected as nat) + ", got: "@ + bracketed(dims),
            ErrorView::InvalidIndex { index, size, op } => op + ": invalid index "@
                + decimal(index as nat) + " with size "@ + decimal(size as nat),
            ErrorView::UnsupportedDTypeForOp { dtype, op } => "unsupported dtype "@
                + dtype.spec_name()@ + " for op "@ + op,
        }
    }
}

/// The failure that a result stands for, if it is one.
pub open spec fn failure<T>(r: Result<T, Error>) -> Option<ErrorView> {
    match r {
        Ok(_) => None,
        Err(e) => Some(e@),
    }
}

impl Error {
    /// The message that tells a user of the error.
    pub fn message(&self) -> (r: String)
        ensures
            r@ == self@.text(),
    {
        let mut m = String::new();
        match self {
            Error::RequiresContiguous { op } => {
                m.append(op);
                m.append(" only supports contiguous tensors");
            },
            Error::ShapeMismatchBinaryOp { lhs, rhs, op } => {
                m.append("shape mismatch in ");
                m.append(op);
                m.append(", lhs: ");
                push_bracketed(&mut m, lhs);
                m.append(", rhs: ");
                push_bracketed(&mut m, rhs);
            },
            Error::DTypeMismatchBinaryOp { left, right, op } => {
                m.append("dtype mismatch in ");
                m.append(op);
                m.append(", lhs: ");
                m.append(left.name());
                m.append(", rhs: ");
                m.append(right.name());
            },
            Error::SharedStorage { op } => {
                m.append("in-place op '");
                m.append(op);
                m.append("' requires unique ownership of storage (Arc count > 1)");
            },
            Error::KernelDType { op } => {
                m.append("dtype mismatch or unsupported dtype in ");
                m.append(op);
            },
            Error::AddReluDType => {
                m.append("add_relu: unsupported dtype combination");
            },
            Error::EdgeIndexShape { dims } => {
                m.append("CsrMatrix::from_edge_index: edge_index must be [2, E], got ");
                push_bracketed(&mut m, dims);
            },
            Error::DestinationOutOfRange { index, n_nodes } => {
                m.append("CsrMatrix::from_edge_index: dst index ");
                push_decimal(&mut m, *index);
                m.append(" out of range [0, ");
                push_decimal(&mut m, *n_nodes);
                m.append(")");
            },
            Error::FeatureShape { dims } => {
                m.append("CsrMatrix::spmm: feat must be [N, D], got ");
                push_bracketed(&mut m, dims);
            },
            Error::FeatureRows { rows, cols } => {
                m.append("CsrMatrix::spmm: feat rows ");
                push_decimal(&mut m, *rows);
                m.append(" != matrix cols ");
                push_decimal(&mut m, *cols);
            },
            Error::FeatureDType { dtype } => {
                m.append("CsrMatrix::spmm: only f32 feat is supported (got ");
                m.append(dtype.name());
                m.append("); cast feat to f32 before calling gnn_spmm");
            },
            Error::Cusparse { call, cause } => {
                m.append(call);
                m.append(": ");
                m.append(cause.as_str());
            },
            Error::EdgeRow { row, dims } => {
                m.append("edge_index has no row ");
                push_decimal(&mut m, *row);
                m.append(", got ");
                push_bracketed(&mut m, dims);
            },
            Error::UnexpectedRank { expected, dims } => {
                m.append("unexpected rank, expected: ");
                push_decimal(&mut m, *expected);
                m.append(", got: ");
                push_bracketed(&mut m, dims);
            },
            Error::InvalidIndex { index, size, op } => {
                m.append(op);
                m.append(": invalid index ");
                push_decimal(&mut m, *index);
                m.append(" with size ");
                push_decimal(&mut m, *size);
            },
            Error::UnsupportedDTypeForOp { dtype, op } => {
                m.append("unsupported dtype ");
                m.append(dtype.name());
                m.append(" for op ");
                m.append(op);
            },
        }
        assert(m@ =~= self@.text());
        m
    }
}

/// A failure is none for a result, and for an error its kind with what the error holds.
pub proof fn law_failure_holds_what_the_error_holds<T>(r: Result<T, Error>)
    ensures
        r is Ok <==> failure(r) is None,
        r matches Err(e) ==> match e {
            Error::RequiresContiguous { op } => failure(r) matches Some(
                ErrorView::RequiresContiguous { op: o },
            ) && o == op@,
            Error::ShapeMismatchBinaryOp { lhs, rhs, op } => failure(r) matches Some(
                ErrorView::ShapeMismatchBinaryOp { lhs: a, rhs: b, op: o },
            ) && a == lhs@ && b == rhs@ && o == op@,
            Error::DTypeMismatchBinaryOp { left, right, op } => failure(r) matches Some(
                ErrorView::DTypeMismatchBinaryOp { left: a, right: b, op: o },
            ) && a == left && b == right && o == op@,
            Error::SharedStorage { op } => failure(r) matches Some(
                ErrorView::SharedStorage { op: o },
            ) && o == op@,
            Error::KernelDType { op } => failure(r) matches Some(ErrorView::KernelDType { op: o })
                && o == op@,
            Error::AddReluDType => failure(r) == Some(ErrorView::AddReluDType),
            Error::EdgeIndexShape { dims } => failure(r) matches Some(
                ErrorView::EdgeIndexShape { dims: d },
            ) && d == dims@,
            Error::DestinationOutOfRange { index, n_nodes } => failure(r) matches Some(
                ErrorView::DestinationOutOfRange { index: i, n_nodes: n },
            ) && i == index && n == n_nodes,
            Error::FeatureShape { dims } => failure(r) matches Some(
                ErrorView::FeatureShape { dims: d },
            ) && d == dims@,
            Error::FeatureRows { rows, cols } => failure(r) matches Some(
                ErrorView::FeatureRows { rows: a, cols: b },
            ) && a == rows && b == cols,
            Error::FeatureDType { dtype } => failure(r) matches Some(
                ErrorView::FeatureDType { dtype: t },
            ) && t == dtype,
            Error::Cusparse { call, cause } => failure(r) matches Some(
                ErrorView::Cusparse { call: a, cause: b },
            ) && a == call@ && b == cause@,
            Error::EdgeRow { row, dims } => failure(r) matches Some(
                ErrorView::EdgeRow { row: i, dims: d },
            ) && i == row && d == dims@,
            Error::UnexpectedRank { expected, dims } => failure(r) matches Some(
                ErrorView::UnexpectedRank { expected: n, dims: d },
            ) && n == expected && d == dims@,
            Error::InvalidIndex { index, size, op } => failure(r) matches Some(
                ErrorView::InvalidIndex { index: i, size: n, op: o },
            ) && i == index && n == size && o == op@,
            Error::UnsupportedDTypeForOp { dtype, op } => failure(r) matches Some(
                ErrorView::UnsupportedDTypeForOp { dtype: t, op: o },
            ) && t == dtype && o == op@,
        },
{
}

/// The message of an error names what the error holds, each in its place.
pub proof fn law_message_names_what_the_error_holds(e: Error, message: String)
    requires
        call_ensures(Error::message, (&e,), message),
    ensures
        message@ == match e {
            Error::RequiresContiguous { op } => op@ + " only supports contiguous tensors"@,
            Error::ShapeMismatchBinaryOp { lhs, rhs, op } => "shape mismatch in "@ + op@
                + ", lhs: "@ + bracketed(lhs@) + ", rhs: "@ + bracketed(rhs@),
            Error::DTypeMismatchBinaryOp { left, right, op } => "dtype mismatch in "@ + op@
                + ", lhs: "@ + left.spec_name()@ + ", rhs: "@ + right.spec_name()@,
            Error::SharedStorage { op } => "in-place op '"@ + op@
                + "' requires unique ownership of storage (Arc count > 1)"@,
            Error::KernelDType { op } => "dtype mismatch or unsupported dtype in "@ + op@,
            Error::AddReluDType => "add_relu: unsupported dtype combination"@,
            Error::EdgeIndexShape { dims } => {
                "CsrMatrix::from_edge_index: edge_index must be [2, E], got "@ + bracketed(dims@)
            },
            Error::DestinationOutOfRange { index, n_nodes } => {
                "CsrMatrix::from_edge_index: dst index "@ + decimal(index as nat)
                    + " out of range [0, "@ + decimal(n_nodes as nat) + ")"@
            },
            Error::FeatureShape { dims } => "CsrMatrix::spmm: feat must be [N, D], got "@
                + bracketed(dims@),
            Error::FeatureRows { rows, cols } => "CsrMatrix::spmm: feat rows "@ + decimal(
                rows as nat,
            ) + " != matrix cols "@ + decimal(cols as nat),
            Error::FeatureDType { dtype } => {
                "CsrMatrix::spmm: only f32 feat is supported (got "@ + dtype.spec_name()@
                    + "); cast feat to f32 before calling gnn_spmm"@
            },
            Error::Cusparse { call, cause } => call@ + ": "@ + cause@,
            Error::EdgeRow { row, dims } => "edge_index has no row "@ + decimal(row as nat)
                + ", got "@ + bracketed(dims@),
            Error::UnexpectedRank { expected, dims } => "unexpected rank, expected: "@ + decimal(
                expected as nat,
            ) + ", got: "@ + bracketed(dims@),
            Error::InvalidIndex { index, size, op } => op@ + ": invalid index "@ + decimal(
                index as nat,
            ) + " with size "@ + decimal(size as nat),
            Error::UnsupportedDTypeForOp { dtype, op } => "unsupported dtype "@
                + dtype.spec_name()@ + " for op "@ + op@,
        },
{
}

} // verus!
