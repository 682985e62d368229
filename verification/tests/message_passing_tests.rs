//! Message passing.

use candle_gnn::bfloat::Bf16;
use candle_gnn::element::{BinaryOp, Element, Real};
use candle_gnn::inplace_ops::Tensor;
use candle_gnn::layout::Layout;
use candle_gnn::message_passing::{aggregate_mean, aggregate_sum, divide_by_fan_in};
use candle_gnn::sparse::CsrMatrix;
use candle_gnn::storage::{CpuStorage, Precision};

#[derive(Clone, Copy, Debug, PartialEq)]
struct Half(half::f16);

#[derive(Clone, Copy, Debug, PartialEq)]
struct Single(f32);

#[derive(Clone, Copy, Debug, PartialEq)]
struct Double(f64);

impl Element for Half {
    fn combine(op: BinaryOp, a: Half, b: Half) -> Half {
        Half(match op {
            BinaryOp::Add => a.0 + b.0,
            BinaryOp::Sub => a.0 - b.0,
            BinaryOp::Mul => a.0 * b.0,
        })
    }
}

impl Element for Single {
    fn combine(op: BinaryOp, a: Single, b: Single) -> Single {
        Single(match op {
            BinaryOp::Add => a.0 + b.0,
            BinaryOp::Sub => a.0 - b.0,
            BinaryOp::Mul => a.0 * b.0,
        })
    }
}

impl Element for Double {
    fn combine(op: BinaryOp, a: Double, b: Double) -> Double {
        Double(match op {
            BinaryOp::Add => a.0 + b.0,
            BinaryOp::Sub => a.0 - b.0,
            BinaryOp::Mul => a.0 * b.0,
        })
    }
}

impl Real for Half {
    fn zero() -> Half {
        Half(half::f16::ZERO)
    }
    fn is_positive(self) -> bool {
        self.0 > half::f16::ZERO
    }
}

impl Real for Single {
    fn zero() -> Single {
        Single(0.0)
    }
    fn is_positive(self) -> bool {
        self.0 > 0.0
    }
}

impl Real for Double {
    fn zero() -> Double {
        Double(0.0)
    }
    fn is_positive(self) -> bool {
        self.0 > 0.0
    }
}

struct Host;

impl Precision for Host {
    type F16 = Half;
    type F32 = Single;
    type F64 = Double;
    fn bf16_to_f32(x: Bf16) -> Single {
        Single(half::bf16::from_bits(x.bits).to_f32())
    }
    fn f16_to_f32(x: Half) -> Single {
        Single(x.0.to_f32())
    }
    fn f64_to_f32(x: Double) -> Single {
        Single(x.0 as f32)
    }
    fn divide(x: Single, count: u64) -> Single {
        Single(x.0 / count as f32)
    }
}

fn edge_list(src: &[i64], dst: &[i64]) -> Tensor<Host> {
    let entries = src.iter().chain(dst.iter()).copied().collect();
    let layout = Layout::contiguous(vec![2, src.len()]);
    Tensor::from_parts(CpuStorage::I64(entries), layout).unwrap()
}

fn features(values: &[f32], rows: usize, cols: usize) -> Tensor<Host> {
    let storage = CpuStorage::F32(values.iter().map(|v| Single(*v)).collect());
    Tensor::from_parts(storage, Layout::contiguous(vec![rows, cols])).unwrap()
}

fn to_f32(t: &Tensor<Host>) -> Vec<f32> {
    match &*t.storage {
        CpuStorage::F32(v) => v.iter().map(|x| x.0).collect(),
        CpuStorage::F16(v) => v.iter().map(|x| x.0.to_f32()).collect(),
        CpuStorage::BF16(v) => v.iter().map(|x| half::bf16::from_bits(x.bits).to_f32()).collect(),
        CpuStorage::F64(v) => v.iter().map(|x| x.0 as f32).collect(),
        _ => panic!("not a floating-point tensor"),
    }
}

// The edges 0 -> 1, 0 -> 2, 1 -> 2, 2 -> 0; node 3 is isolated.
fn small_graph() -> Tensor<Host> {
    edge_list(&[0, 0, 1, 2], &[1, 2, 2, 0])
}

#[test]
fn sums_reach_their_nodes() {
    let f = features(&[1.0, 10.0, 2.0, 20.0, 4.0, 40.0, 8.0, 80.0], 4, 2);
    let out = aggregate_sum(&f, &small_graph(), 4).unwrap();
    assert_eq!(out.layout.dims, vec![4, 2]);
    assert!(out.layout.is_contiguous());
    assert_eq!(to_f32(&out), [4.0, 40.0, 1.0, 10.0, 3.0, 30.0, 0.0, 0.0]);
}

#[test]
fn means_divide_by_the_number_of_edges() {
    let f = features(&[1.0, 10.0, 2.0, 20.0, 4.0, 40.0, 8.0, 80.0], 4, 2);
    let out = aggregate_mean(&f, &small_graph(), 4).unwrap();
    assert_eq!(out.layout.dims, vec![4, 2]);
    assert_eq!(to_f32(&out), [4.0, 40.0, 1.0, 10.0, 1.5, 15.0, 0.0, 0.0]);
}

#[test]
fn mean_is_the_divided_sum() {
    let f = features(&[1.25, 10.0, 2.5, 20.0, 4.75, 40.0, 8.0, 80.0], 4, 2);
    let sum = aggregate_sum(&f, &small_graph(), 4).unwrap();
    let divided = divide_by_fan_in(&sum, &small_graph());
    let mean = aggregate_mean(&f, &small_graph(), 4).unwrap();
    assert_eq!(to_f32(&divided), to_f32(&mean));
    assert_eq!(to_f32(&divided), [4.75, 40.0, 1.25, 10.0, 1.875, 15.0, 0.0, 0.0]);
}

#[test]
fn mean_of_equal_features_is_the_feature() {
    let f = features(&[0.75, 3.0], 2, 1);
    let n = 1000;
    let src = vec![0i64; n];
    let mut dst = vec![1i64; n];
    dst[0] = 0;
    let out = aggregate_mean(&f, &edge_list(&src, &dst), 2).unwrap();
    assert_eq!(to_f32(&out), [0.75, 0.75]);
}

#[test]
fn isolated_nodes_stay_zero() {
    let f = features(&[5.0, 6.0], 2, 1);
    let sum = aggregate_sum(&f, &edge_list(&[1, 1], &[0, 0]), 5).unwrap();
    assert_eq!(to_f32(&sum), [12.0, 0.0, 0.0, 0.0, 0.0]);
    let mean = aggregate_mean(&f, &edge_list(&[1, 1], &[0, 0]), 5).unwrap();
    assert_eq!(to_f32(&mean), [6.0, 0.0, 0.0, 0.0, 0.0]);
    let none = aggregate_mean(&f, &edge_list(&[], &[]), 2).unwrap();
    assert_eq!(to_f32(&none), [0.0, 0.0]);
}

#[test]
fn sum_agrees_with_the_adjacency_matrix() {
    let src: Vec<i64> = (0..40).map(|i| (i * 5 + 2) % 9).collect();
    let dst: Vec<i64> = (0..40).map(|i| (i * i) % 9).collect();
    let values: Vec<f32> = (0..9).map(|u| 0.1 * u as f32 - 0.37).collect();
    let edges = edge_list(&src, &dst);
    let out = to_f32(&aggregate_sum(&features(&values, 9, 1), &edges, 9).unwrap());
    let m = CsrMatrix::from_edge_index(&edges, 9).unwrap();
    for v in 0..9 {
        let mut sum = 0.0f32;
        for u in &m.col_idx[m.row_ptr[v] as usize..m.row_ptr[v + 1] as usize] {
            sum += values[*u as usize];
        }
        assert_eq!(out[v], sum);
    }
}

#[test]
fn features_of_every_float_type() {
    let values = [1.5f32, 2.0, 0.25];
    let layout = || Layout::contiguous(vec![3, 1]);
    let edges = edge_list(&[0, 1, 2, 0], &[0, 0, 1, 1]);
    let storages: Vec<CpuStorage<Host>> = vec![
        CpuStorage::BF16(
            values.iter().map(|v| Bf16 { bits: half::bf16::from_f32(*v).to_bits() }).collect(),
        ),
        CpuStorage::F16(values.iter().map(|v| Half(half::f16::from_f32(*v))).collect()),
        CpuStorage::F64(values.iter().map(|v| Double(*v as f64)).collect()),
    ];
    for storage in storages {
        let dtype = storage.dtype();
        let f = Tensor::from_parts(storage, layout()).unwrap();
        let sum = aggregate_sum(&f, &edges, 2).unwrap();
        assert_eq!(sum.storage.dtype(), dtype);
        assert_eq!(to_f32(&sum), [3.5, 1.75]);
        let mean = aggregate_mean(&f, &edges, 2).unwrap();
        assert_eq!(mean.storage.dtype().name(), "F32");
        assert_eq!(to_f32(&mean), [1.75, 0.875]);
    }
}

#[test]
fn features_may_be_strided() {
    let storage = CpuStorage::F32([1.0f32, 2.0, 3.0, 4.0, 5.0, 6.0].map(Single).to_vec());
    let layout = Layout { dims: vec![3, 2], stride: vec![1, 3], start_offset: 0 };
    let f: Tensor<Host> = Tensor::from_parts(storage, layout).unwrap();
    let out = aggregate_sum(&f, &edge_list(&[2, 0], &[0, 0]), 1).unwrap();
    assert_eq!(to_f32(&out), [4.0, 10.0]);
}

#[test]
fn sources_have_to_exist() {
    let f = features(&[1.0, 2.0], 2, 1);
    let e = aggregate_sum(&f, &edge_list(&[0, 7], &[0, 99]), 2).err().unwrap();
    assert_eq!(e.message(), "index-select: invalid index 7 with size 2");
}

#[test]
fn destinations_have_to_exist() {
    let f = features(&[1.0, 2.0], 2, 1);
    let e = aggregate_sum(&f, &edge_list(&[0, 1], &[3, 0]), 3).err().unwrap();
    assert_eq!(e.message(), "gnn-scatter-add: invalid index 3 with size 3");
    let e = aggregate_mean(&f, &edge_list(&[0, 1], &[3, 0]), 3).err().unwrap();
    assert_eq!(e.message(), "gnn-scatter-add: invalid index 3 with size 3");
}

#[test]
fn form_of_the_operands_is_checked() {
    let f = features(&[1.0, 2.0], 2, 1);
    let flat = Layout::contiguous(vec![4]);
    let edges: Tensor<Host> = Tensor::from_parts(CpuStorage::I64(vec![0; 4]), flat).unwrap();
    let e = aggregate_sum(&f, &edges, 2).err().unwrap();
    assert_eq!(e.message(), "unexpected rank, expected: 2, got: [4]");
    let one = Layout::contiguous(vec![1, 4]);
    let edges: Tensor<Host> = Tensor::from_parts(CpuStorage::I64(vec![0; 4]), one).unwrap();
    let e = aggregate_sum(&f, &edges, 2).err().unwrap();
    assert_eq!(e.message(), "edge_index has no row 1, got [1, 4]");
    let deep = Layout::contiguous(vec![2, 1, 1]);
    let storage = CpuStorage::F32([1.0f32, 2.0].map(Single).to_vec());
    let cube: Tensor<Host> = Tensor::from_parts(storage, deep).unwrap();
    let e = aggregate_sum(&cube, &edge_list(&[0], &[0]), 2).err().unwrap();
    assert_eq!(e.message(), "unexpected rank, expected: 2, got: [2, 1, 1]");
    let floats = features(&[0.0, 0.0], 2, 1);
    let e = aggregate_sum(&f, &floats, 2).err().unwrap();
    assert_eq!(e.message(), "unsupported dtype F32 for op index-select");
}

#[test]
fn features_have_to_be_floats() {
    let layout = Layout::contiguous(vec![2, 1]);
    let f: Tensor<Host> = Tensor::from_parts(CpuStorage::U32(vec![1, 2]), layout).unwrap();
    let e = aggregate_mean(&f, &edge_list(&[0], &[0]), 2).err().unwrap();
    assert_eq!(e.message(), "unsupported dtype U32 for op gnn-scatter-add");
}
