//! Row pointers, adjacency matrices, and the calls for a product.

use candle_gnn::bfloat::Bf16;
use candle_gnn::dtype::DType;
use candle_gnn::element::{BinaryOp, Element, Real};
use candle_gnn::error::Error;
use candle_gnn::inplace_ops::Tensor;
use candle_gnn::layout::Layout;
use candle_gnn::sparse::{coo_to_csr_rowptr, destinations_within, CsrMatrix, ONE_BITS};
use candle_gnn::spmm::{
    DenseOrder, Operation, SpmmAlgorithm, SpmmCall, SpmmTerms, SPMM_CALLS,
};
use candle_gnn::storage::{CpuStorage, Precision};

#[derive(Clone, Copy, Debug, PartialEq)]
struct Half(half::f16);

#[derive(Clone, Copy, Debug, PartialEq)]
struct Single(f32);

#[derive(Clone, Copy, Debug, PartialEq)]
struct Double(f64);

impl Element for Half {
    fn combine(op: BinaryOp, a: Half, b: Half) -> Half {
        Half(match op {
            BinaryOp::Add => a.0 + b.0,
            BinaryOp::Sub => a.0 - b.0,
            BinaryOp::Mul => a.0 * b.0,
        })
    }
}

impl Element for Single {
    fn combine(op: BinaryOp, a: Single, b: Single) -> Single {
        Single(match op {
            BinaryOp::Add => a.0 + b.0,
            BinaryOp::Sub => a.0 - b.0,
            BinaryOp::Mul => a.0 * b.0,
        })
    }
}

impl Element for Double {
    fn combine(op: BinaryOp, a: Double, b: Double) -> Double {
        Double(match op {
            BinaryOp::Add => a.0 + b.0,
            BinaryOp::Sub => a.0 - b.0,
            BinaryOp::Mul => a.0 * b.0,
        })
    }
}

impl Real for Half {
    fn zero() -> Half {
        Half(half::f16::ZERO)
    }
    fn is_positive(self) -> bool {
        self.0 > half::f16::ZERO
    }
}

impl Real for Single {
    fn zero() -> Single {
        Single(0.0)
    }
    fn is_positive(self) -> bool {
        self.0 > 0.0
    }
}

impl Real for Double {
    fn zero() -> Double {
        Double(0.0)
    }
    fn is_positive(self) -> bool {
        self.0 > 0.0
    }
}

struct Host;

impl Precision for Host {
    type F16 = Half;
    type F32 = Single;
    type F64 = Double;
    fn bf16_to_f32(x: Bf16) -> Single {
        Single(half::bf16::from_bits(x.bits).to_f32())
    }
    fn f16_to_f32(x: Half) -> Single {
        Single(x.0.to_f32())
    }
    fn f64_to_f32(x: Double) -> Single {
        Single(x.0 as f32)
    }
    fn divide(x: Single, count: u64) -> Single {
        Single(x.0 / count as f32)
    }
}

fn edge_list(src: &[i64], dst: &[i64]) -> Tensor<Host> {
    let entries = src.iter().chain(dst.iter()).copied().collect();
    let layout = Layout::contiguous(vec![2, src.len()]);
    Tensor::from_parts(CpuStorage::I64(entries), layout).unwrap()
}

#[test]
fn test_coo_to_csr_rowptr() {
    // Destinations of the edges 0 -> 1, 0 -> 2, 1 -> 2, 2 -> 0.
    let dst_row = vec![1i32, 2, 2, 0];
    let row_ptr = coo_to_csr_rowptr(&dst_row, 3);
    assert_eq!(row_ptr, vec![0, 1, 2, 4]);
}

#[test]
fn test_col_idx_ordering() {
    let src_row = vec![0i32, 0, 1, 2];
    let dst_row = vec![1i32, 2, 2, 0];
    let n_nodes = 3;
    let e = src_row.len();

    let row_ptr = coo_to_csr_rowptr(&dst_row, n_nodes);
    let mut col_idx = vec![0i32; e];
    let mut cursor = row_ptr[..n_nodes].to_vec();
    for k in 0..e {
        let dst = dst_row[k] as usize;
        let pos = cursor[dst] as usize;
        col_idx[pos] = src_row[k];
        cursor[dst] += 1;
    }
    assert_eq!(col_idx, vec![2, 0, 0, 1]);

    // The matrix that is built from the edge list holds the same columns.
    let m = CsrMatrix::from_edge_index(&edge_list(&[0, 0, 1, 2], &[1, 2, 2, 0]), n_nodes).unwrap();
    assert_eq!(m.col_idx, vec![2, 0, 0, 1]);
}

#[test]
fn test_rowptr_last_entry() {
    let dst_row: Vec<i32> = (0..100).map(|i| i % 7).collect();
    let row_ptr = coo_to_csr_rowptr(&dst_row, 7);
    assert_eq!(*row_ptr.last().unwrap(), 100);
}

#[test]
fn row_pointers_of_small_graphs() {
    assert_eq!(coo_to_csr_rowptr(&[], 0), vec![0]);
    assert_eq!(coo_to_csr_rowptr(&[], 3), vec![0, 0, 0, 0]);
    assert_eq!(coo_to_csr_rowptr(&[3, 3, 3], 5), vec![0, 0, 0, 0, 3, 3]);
}

#[test]
fn rows_hold_in_degrees() {
    let dst: Vec<i32> = (0..50).map(|i| (i * i) % 11).collect();
    let row_ptr = coo_to_csr_rowptr(&dst, 11);
    let src = vec![0i64; 50];
    let wide: Vec<i64> = dst.iter().map(|d| *d as i64).collect();
    let m = CsrMatrix::from_edge_index(&edge_list(&src, &wide), 11).unwrap();
    assert_eq!(m.row_ptr, row_ptr);
    for v in 0..11 {
        let degree = dst.iter().filter(|d| **d == v).count() as i32;
        assert_eq!(row_ptr[v as usize + 1] - row_ptr[v as usize], degree);
    }
}

#[test]
fn row_pointers_ignore_the_order_of_the_edges() {
    let a = [4, 0, 2, 2, 1, 4, 4];
    let b = [2, 4, 4, 1, 2, 4, 0];
    assert_eq!(coo_to_csr_rowptr(&a, 5), vec![0, 1, 2, 4, 4, 7]);
    assert_eq!(coo_to_csr_rowptr(&a, 5), coo_to_csr_rowptr(&b, 5));
}

#[test]
fn row_pointers_of_joined_lists_add_up() {
    let a = [1, 2, 2, 0];
    let b = [2, 1, 1, 1, 2];
    let both = [1, 2, 2, 0, 2, 1, 1, 1, 2];
    let (ra, rb) = (coo_to_csr_rowptr(&a, 3), coo_to_csr_rowptr(&b, 3));
    let sums: Vec<i32> = ra.iter().zip(rb.iter()).map(|(x, y)| x + y).collect();
    assert_eq!(coo_to_csr_rowptr(&both, 3), sums);
    assert_eq!(sums, vec![0, 1, 5, 9]);
}

#[test]
fn matrix_of_a_graph() {
    let m = CsrMatrix::from_edge_index(&edge_list(&[0, 0, 1, 2], &[1, 2, 2, 0]), 4).unwrap();
    assert_eq!((m.n_rows, m.n_cols, m.nnz), (4, 4, 4));
    assert_eq!(m.row_ptr, vec![0, 1, 2, 4, 4]);
    assert_eq!(m.col_idx, vec![2, 0, 0, 1]);
    assert_eq!(m.values, vec![ONE_BITS; 4]);
    assert_eq!(f32::from_bits(ONE_BITS), 1.0);
}

#[test]
fn edges_keep_their_order_within_a_row() {
    let m = CsrMatrix::from_edge_index(&edge_list(&[4, 1, 4, 0, 3], &[2, 0, 2, 2, 0]), 5).unwrap();
    assert_eq!(m.row_ptr, vec![0, 2, 2, 5, 5, 5]);
    assert_eq!(m.col_idx, vec![1, 3, 4, 4, 0]);
}

#[test]
fn product_is_the_scatter_sum() {
    let src: Vec<i64> = (0..60).map(|i| (i * 7 + 3) % 13).collect();
    let dst: Vec<i64> = (0..60).map(|i| (i * i + 1) % 13).collect();
    let feat: Vec<i64> = (0..13).map(|u| 100 * u - 37).collect();
    let m = CsrMatrix::from_edge_index(&edge_list(&src, &dst), 13).unwrap();
    let mut out = vec![0i64; 13];
    for k in 0..60 {
        out[dst[k] as usize] += feat[src[k] as usize];
    }
    for v in 0..13 {
        let row = &m.col_idx[m.row_ptr[v] as usize..m.row_ptr[v + 1] as usize];
        let sum: i64 = row.iter().map(|u| feat[*u as usize]).sum();
        assert_eq!(sum, out[v]);
        let dense: i64 = (0..13)
            .map(|u| row.iter().filter(|c| **c == u).count() as i64 * feat[u as usize])
            .sum();
        assert_eq!(dense, out[v]);
    }
}

#[test]
fn entries_count_edges() {
    let src = [0i64, 1, 0, 0, 2];
    let dst = [1i64, 1, 1, 2, 0];
    let m = CsrMatrix::from_edge_index(&edge_list(&src, &dst), 3).unwrap();
    for v in 0..3 {
        let row = &m.col_idx[m.row_ptr[v] as usize..m.row_ptr[v + 1] as usize];
        for u in 0..3 {
            let edges = (0..5).filter(|k| src[*k] == u && dst[*k] == v as i64).count();
            assert_eq!(row.iter().filter(|c| **c as i64 == u).count(), edges);
        }
    }
    let row = &m.col_idx[m.row_ptr[1] as usize..m.row_ptr[2] as usize];
    assert_eq!(row, [0, 1, 0]);
}

#[test]
fn edge_lists_of_every_integer_type() {
    let layout = || Layout::contiguous(vec![2, 3]);
    let storages: Vec<CpuStorage<Host>> = vec![
        CpuStorage::U8(vec![0, 1, 2, 1, 1, 0]),
        CpuStorage::U32(vec![0, 1, 2, 1, 1, 0]),
        CpuStorage::I16(vec![0, 1, 2, 1, 1, 0]),
        CpuStorage::I32(vec![0, 1, 2, 1, 1, 0]),
        CpuStorage::I64(vec![0, 1, 2, 1, 1, 0]),
    ];
    for storage in storages {
        let edges = Tensor::from_parts(storage, layout()).unwrap();
        let m = CsrMatrix::from_edge_index(&edges, 3).unwrap();
        assert_eq!(m.row_ptr, vec![0, 1, 3, 3]);
        assert_eq!(m.col_idx, vec![2, 0, 1]);
    }
}

#[test]
fn edge_list_may_be_strided() {
    // Pairs of a source and a destination, read by columns.
    let storage = CpuStorage::U32(vec![0, 1, 0, 2, 1, 2, 2, 0]);
    let layout = Layout { dims: vec![2, 4], stride: vec![1, 2], start_offset: 0 };
    let edges: Tensor<Host> = Tensor::from_parts(storage, layout).unwrap();
    let m = CsrMatrix::from_edge_index(&edges, 3).unwrap();
    assert_eq!(m.row_ptr, vec![0, 1, 2, 4]);
    assert_eq!(m.col_idx, vec![2, 0, 0, 1]);
}

#[test]
fn entries_are_taken_as_32_bit_numbers() {
    let wide = (1i64 << 32) + 1;
    let m = CsrMatrix::from_edge_index(&edge_list(&[wide], &[wide]), 2).unwrap();
    assert_eq!(m.row_ptr, vec![0, 0, 1]);
    assert_eq!(m.col_idx, vec![1]);
}

#[test]
fn edge_list_needs_two_rows() {
    let three = Layout::contiguous(vec![3, 2]);
    let edges: Tensor<Host> = Tensor::from_parts(CpuStorage::I64(vec![0; 6]), three).unwrap();
    let e = CsrMatrix::from_edge_index(&edges, 1).unwrap_err();
    assert_eq!(
        e.message(),
        "CsrMatrix::from_edge_index: edge_index must be [2, E], got [3, 2]"
    );
    let flat = Layout::contiguous(vec![6]);
    let edges: Tensor<Host> = Tensor::from_parts(CpuStorage::I64(vec![0; 6]), flat).unwrap();
    assert!(matches!(
        CsrMatrix::from_edge_index(&edges, 1),
        Err(Error::EdgeIndexShape { .. })
    ));
}

#[test]
fn edges_end_at_nodes_that_exist() {
    let e = CsrMatrix::from_edge_index(&edge_list(&[0, 0, 0], &[1, 12, 13]), 3).unwrap_err();
    assert_eq!(
        e.message(),
        "CsrMatrix::from_edge_index: dst index 12 out of range [0, 3)"
    );
    let e = CsrMatrix::from_edge_index(&edge_list(&[0], &[-1]), 3).unwrap_err();
    match e {
        Error::DestinationOutOfRange { index, n_nodes } => {
            assert_eq!(index, -1i32 as usize);
            assert_eq!(n_nodes, 3);
        }
        _ => panic!("another error"),
    }
}

#[test]
fn destinations_are_looked_through() {
    assert!(destinations_within(&edge_list(&[9, 9], &[1, 2]), 3));
    assert!(!destinations_within(&edge_list(&[0, 0], &[1, 3]), 3));
    assert!(!destinations_within(&edge_list(&[0], &[-1]), 3));
    assert!(destinations_within(&edge_list(&[], &[]), 0));
}

#[test]
fn sources_are_not_checked() {
    let m = CsrMatrix::from_edge_index(&edge_list(&[77], &[0]), 1).unwrap();
    assert_eq!(m.col_idx, vec![77]);
}

fn triangle() -> CsrMatrix {
    CsrMatrix::from_edge_index(&edge_list(&[0, 1, 2], &[1, 2, 0]), 3).unwrap()
}

#[test]
fn product_is_planned() {
    let feat = Layout { dims: vec![3, 5], stride: vec![5, 1], start_offset: 4 };
    let plan = triangle().spmm(DType::F32, &feat, 19).unwrap();
    assert_eq!((plan.feat_from, plan.feat_to), (4, 19));
    assert_eq!((plan.out_elems, plan.out_rows, plan.out_cols), (15, 3, 5));
    assert_eq!((plan.run.n_rows, plan.run.n_cols, plan.run.nnz, plan.run.d), (3, 3, 3, 5));
    assert_eq!(plan.run.next(), Some(SpmmCall::Create));
}

#[test]
fn product_checks_its_features() {
    let m = triangle();
    let e = m.spmm(DType::F32, &Layout::contiguous(vec![3]), 3).unwrap_err();
    assert_eq!(e.message(), "CsrMatrix::spmm: feat must be [N, D], got [3]");
    let e = m.spmm(DType::F32, &Layout::contiguous(vec![4, 2]), 8).unwrap_err();
    assert_eq!(e.message(), "CsrMatrix::spmm: feat rows 4 != matrix cols 3");
    let e = m.spmm(DType::F64, &Layout::contiguous(vec![3, 2]), 6).unwrap_err();
    assert_eq!(
        e.message(),
        "CsrMatrix::spmm: only f32 feat is supported (got F64); cast feat to f32 before calling gnn_spmm"
    );
    let transposed = Layout { dims: vec![3, 2], stride: vec![1, 3], start_offset: 0 };
    let e = m.spmm(DType::F32, &transposed, 6).unwrap_err();
    assert_eq!(e.message(), "gnn-spmm only supports contiguous tensors");
}

#[test]
fn product_makes_its_calls_in_order() {
    let plan = triangle().spmm(DType::F32, &Layout::contiguous(vec![3, 2]), 6).unwrap();
    let mut run = plan.run;
    let mut calls = vec![];
    while let Some(call) = run.next() {
        calls.push(call);
        let answer = if matches!(call, SpmmCall::BufferSize { .. }) { 4096 } else { 0 };
        run.advance(Ok(answer)).unwrap();
    }
    assert_eq!(calls.len(), SPMM_CALLS);
    let terms = SpmmTerms {
        op_a: Operation::NonTranspose,
        op_b: Operation::NonTranspose,
        alpha: 1.0f32.to_bits(),
        beta: 0.0f32.to_bits(),
        compute: DType::F32,
        algorithm: SpmmAlgorithm::CsrAlg1,
    };
    let (values, order) = (DType::F32, DenseOrder::Row);
    assert_eq!(
        calls,
        vec![
            SpmmCall::Create,
            SpmmCall::CreateCsr { rows: 3, cols: 3, nnz: 3, index_bits: 32, index_base: 0, values },
            SpmmCall::CreateDnMatB { rows: 3, cols: 2, ld: 2, values, order },
            SpmmCall::CreateDnMatC { rows: 3, cols: 2, ld: 2, values, order },
            SpmmCall::BufferSize { terms },
            SpmmCall::AllocWorkspace { len: 4096 },
            SpmmCall::Multiply { terms },
            SpmmCall::DestroySpMat,
            SpmmCall::DestroyDnMatB,
            SpmmCall::DestroyDnMatC,
            SpmmCall::Destroy,
        ]
    );
    let labels: Vec<&str> = calls.iter().map(|c| c.label()).collect();
    assert_eq!(
        labels,
        vec![
            "cusparseCreate",
            "cusparseCreateCsr",
            "cusparseCreateDnMat(B)",
            "cusparseCreateDnMat(C)",
            "cusparseSpMM_bufferSize",
            "workspace alloc",
            "cusparseSpMM",
            "cusparseDestroySpMat",
            "cusparseDestroyDnMat(B)",
            "cusparseDestroyDnMat(C)",
            "cusparseDestroy",
        ]
    );
}

#[test]
fn objects_are_released_once_and_last() {
    let plan = triangle().spmm(DType::F32, &Layout::contiguous(vec![3, 2]), 6).unwrap();
    let mut run = plan.run;
    let mut alive: Vec<&str> = vec![];
    while let Some(call) = run.next() {
        let release = |alive: &mut Vec<&str>, name: &str| {
            let at = alive.iter().position(|o| *o == name).expect("the object exists");
            alive.remove(at);
        };
        match call {
            SpmmCall::Create => alive.push("handle"),
            SpmmCall::CreateCsr { .. } => alive.push("a"),
            SpmmCall::CreateDnMatB { .. } => alive.push("b"),
            SpmmCall::CreateDnMatC { .. } => alive.push("c"),
            SpmmCall::BufferSize { .. } | SpmmCall::Multiply { .. } => assert_eq!(alive.len(), 4),
            SpmmCall::AllocWorkspace { .. } => {}
            SpmmCall::DestroySpMat => release(&mut alive, "a"),
            SpmmCall::DestroyDnMatB => release(&mut alive, "b"),
            SpmmCall::DestroyDnMatC => release(&mut alive, "c"),
            SpmmCall::Destroy => release(&mut alive, "handle"),
        }
        run.advance(Ok(64)).unwrap();
    }
    assert!(alive.is_empty());
}

#[test]
fn workspace_is_never_empty() {
    let plan = triangle().spmm(DType::F32, &Layout::contiguous(vec![3, 2]), 6).unwrap();
    let mut run = plan.run;
    for _ in 0..5 {
        run.advance(Ok(0)).unwrap();
    }
    assert_eq!(run.next(), Some(SpmmCall::AllocWorkspace { len: 1 }));
}

#[test]
fn failed_call_ends_the_product() {
    let plan = triangle().spmm(DType::F32, &Layout::contiguous(vec![3, 2]), 6).unwrap();
    let mut run = plan.run;
    run.advance(Ok(0)).unwrap();
    let e = run.advance(Err("NOT_SUPPORTED".to_string())).unwrap_err();
    assert_eq!(e.message(), "cusparseCreateCsr: NOT_SUPPORTED");
    assert_eq!(run.done, 1);
}
