//! In-place arithmetic and the fused rectified sum.

use candle_gnn::bfloat::Bf16;
use candle_gnn::element::{BinaryOp, Element, Real};
use candle_gnn::error::Error;
use candle_gnn::inplace_ops::Tensor;
use candle_gnn::layout::Layout;
use candle_gnn::storage::{CpuStorage, Precision};

#[derive(Clone, Copy, Debug, PartialEq)]
struct Half(half::f16);

#[derive(Clone, Copy, Debug, PartialEq)]
struct Single(f32);

#[derive(Clone, Copy, Debug, PartialEq)]
struct Double(f64);

impl Element for Half {
    fn combine(op: BinaryOp, a: Half, b: Half) -> Half {
        Half(match op {
            BinaryOp::Add => a.0 + b.0,
            BinaryOp::Sub => a.0 - b.0,
            BinaryOp::Mul => a.0 * b.0,
        })
    }
}

impl Element for Single {
    fn combine(op: BinaryOp, a: Single, b: Single) -> Single {
        Single(match op {
            BinaryOp::Add => a.0 + b.0,
            BinaryOp::Sub => a.0 - b.0,
            BinaryOp::Mul => a.0 * b.0,
        })
    }
}

impl Element for Double {
    fn combine(op: BinaryOp, a: Double, b: Double) -> Double {
        Double(match op {
            BinaryOp::Add => a.0 + b.0,
            BinaryOp::Sub => a.0 - b.0,
            BinaryOp::Mul => a.0 * b.0,
        })
    }
}

impl Real for Half {
    fn zero() -> Half {
        Half(half::f16::ZERO)
    }
    fn is_positive(self) -> bool {
        self.0 > half::f16::ZERO
    }
}

impl Real for Single {
    fn zero() -> Single {
        Single(0.0)
    }
    fn is_positive(self) -> bool {
        self.0 > 0.0
    }
}

impl Real for Double {
    fn zero() -> Double {
        Double(0.0)
    }
    fn is_positive(self) -> bool {
        self.0 > 0.0
    }
}

struct Host;

impl Precision for Host {
    type F16 = Half;
    type F32 = Single;
    type F64 = Double;
    fn bf16_to_f32(x: Bf16) -> Single {
        Single(half::bf16::from_bits(x.bits).to_f32())
    }
    fn f16_to_f32(x: Half) -> Single {
        Single(x.0.to_f32())
    }
    fn f64_to_f32(x: Double) -> Single {
        Single(x.0 as f32)
    }
    fn divide(x: Single, count: u64) -> Single {
        Single(x.0 / count as f32)
    }
}

fn tensor(storage: CpuStorage<Host>, dims: &[usize]) -> Tensor<Host> {
    Tensor::from_parts(storage, Layout::contiguous(dims.to_vec())).unwrap()
}

fn single(values: &[f32], dims: &[usize]) -> Tensor<Host> {
    tensor(CpuStorage::F32(values.iter().map(|v| Single(*v)).collect()), dims)
}

fn double(values: &[f64], dims: &[usize]) -> Tensor<Host> {
    tensor(CpuStorage::F64(values.iter().map(|v| Double(*v)).collect()), dims)
}

fn half_precision(values: &[f32], dims: &[usize]) -> Tensor<Host> {
    let v = values.iter().map(|v| Half(half::f16::from_f32(*v))).collect();
    tensor(CpuStorage::F16(v), dims)
}

fn brain(values: &[f32], dims: &[usize]) -> Tensor<Host> {
    let v = values.iter().map(|v| Bf16 { bits: half::bf16::from_f32(*v).to_bits() }).collect();
    tensor(CpuStorage::BF16(v), dims)
}

fn words(values: &[u32]) -> Tensor<Host> {
    tensor(CpuStorage::U32(values.to_vec()), &[values.len()])
}

fn bytes(values: &[u8]) -> Tensor<Host> {
    tensor(CpuStorage::U8(values.to_vec()), &[values.len()])
}

fn longs(values: &[i64]) -> Tensor<Host> {
    tensor(CpuStorage::I64(values.to_vec()), &[values.len()])
}

fn to_f32(t: &Tensor<Host>) -> Vec<f32> {
    match &*t.storage {
        CpuStorage::F32(v) => v.iter().map(|x| x.0).collect(),
        CpuStorage::F16(v) => v.iter().map(|x| x.0.to_f32()).collect(),
        CpuStorage::BF16(v) => v.iter().map(|x| half::bf16::from_bits(x.bits).to_f32()).collect(),
        CpuStorage::F64(v) => v.iter().map(|x| x.0 as f32).collect(),
        _ => panic!("not a floating-point tensor"),
    }
}

fn to_u32(t: &Tensor<Host>) -> Vec<u32> {
    match &*t.storage {
        CpuStorage::U32(v) => v.clone(),
        _ => panic!("not a tensor of words"),
    }
}

fn to_u8(t: &Tensor<Host>) -> Vec<u8> {
    match &*t.storage {
        CpuStorage::U8(v) => v.clone(),
        _ => panic!("not a tensor of bytes"),
    }
}

fn to_i64(t: &Tensor<Host>) -> Vec<i64> {
    match &*t.storage {
        CpuStorage::I64(v) => v.clone(),
        _ => panic!("not a tensor of long integers"),
    }
}

#[test]
fn add_inplace_cpu() {
    let mut a = single(&[1.0, 2.0, 3.0, 4.0], &[4]);
    let b = single(&[10.0, 20.0, 30.0, 40.0], &[4]);
    a.add_(&b).unwrap();
    assert_eq!(to_f32(&a), [11.0, 22.0, 33.0, 44.0]);
}

#[test]
fn sub_inplace_cpu() {
    let mut a = single(&[10.0, 20.0, 30.0, 40.0], &[4]);
    let b = single(&[1.0, 2.0, 3.0, 4.0], &[4]);
    a.sub_(&b).unwrap();
    assert_eq!(to_f32(&a), [9.0, 18.0, 27.0, 36.0]);
}

#[test]
fn mul_inplace_cpu() {
    let mut a = single(&[1.0, 2.0, 3.0, 4.0], &[4]);
    let b = single(&[2.0, 3.0, 4.0, 5.0], &[4]);
    a.mul_(&b).unwrap();
    assert_eq!(to_f32(&a), [2.0, 6.0, 12.0, 20.0]);
}

#[test]
fn add_inplace_2d_cpu() {
    let mut a = single(&[1.0, 2.0, 3.0, 4.0], &[2, 2]);
    let b = single(&[10.0, 20.0, 30.0, 40.0], &[2, 2]);
    a.add_(&b).unwrap();
    assert_eq!(to_f32(&a), [11.0, 22.0, 33.0, 44.0]);
    assert_eq!(a.layout.dims, vec![2, 2]);
}

#[test]
fn add_inplace_u32_cpu() {
    let mut a = words(&[1, 2, 3, 4]);
    let b = words(&[10, 20, 30, 40]);
    a.add_(&b).unwrap();
    assert_eq!(to_u32(&a), [11, 22, 33, 44]);
}

#[test]
fn add_inplace_aliased_fails_cpu() {
    let mut a = single(&[1.0, 2.0, 3.0], &[3]);
    let a2 = a.clone();
    // `a` and `a2` share storage, so that `add_` must fail.
    let result = a.add_(&a2);
    assert!(
        result.is_err(),
        "add_ on aliased tensor should return an error"
    );
    assert!(matches!(result, Err(Error::SharedStorage { op: "add_" })));
    assert_eq!(to_f32(&a), [1.0, 2.0, 3.0]);
}

#[test]
fn inplace_succeeds_once_the_clone_is_gone() {
    let mut a = single(&[1.0, 2.0, 3.0], &[3]);
    let b = single(&[1.0, 1.0, 1.0], &[3]);
    let a2 = a.clone();
    assert!(a.add_(&b).is_err());
    drop(a2);
    a.add_(&b).unwrap();
    assert_eq!(to_f32(&a), [2.0, 3.0, 4.0]);
}

#[test]
fn add_relu_basic_cpu() {
    let a = single(&[-1.0, 0.0, 1.0], &[3]);
    let b = single(&[-1.0, 0.0, 1.0], &[3]);
    let c = a.add_relu(&b).unwrap();
    assert_eq!(to_f32(&c), [0.0, 0.0, 2.0]);
}

#[test]
fn add_relu_2d_cpu() {
    let a = single(&[-2.0, 3.0, 1.0, -4.0], &[2, 2]);
    let b = single(&[1.0, -1.0, -2.0, 5.0], &[2, 2]);
    let c = a.add_relu(&b).unwrap();
    assert_eq!(to_f32(&c), [0.0, 2.0, 0.0, 1.0]);
    assert_eq!(c.layout.dims, vec![2, 2]);
}

#[test]
fn add_relu_matches_naive_cpu() {
    // Scattered values between minus two and two.
    let value = |i: u32| (i.wrapping_mul(2654435761) >> 20) as f32 / 1024.0 - 2.0;
    let va: Vec<f32> = (0..256u32).map(|i| value(i % 97)).collect();
    let vb: Vec<f32> = (0..256u32).map(|i| value(i % 89)).collect();
    let a = single(&va, &[16, 16]);
    let b = single(&vb, &[16, 16]);
    let fused = a.add_relu(&b).unwrap();
    let naive = a.add(&b).unwrap().relu().unwrap();
    assert_eq!(fused.layout.dims, naive.layout.dims);
    for (f, n) in to_f32(&fused).iter().zip(to_f32(&naive).iter()) {
        assert!((f - n).abs() < 1e-5, "mismatch: {f} vs {n}");
    }
    for (i, f) in to_f32(&fused).iter().enumerate() {
        assert_eq!(*f, (va[i] + vb[i]).max(0.0));
    }
}

#[test]
fn add_inplace_matches_add_cpu() {
    let vals_a = vec![1.0f32, -2.0, 3.14, -0.5, 100.0, 0.0];
    let vals_b = vec![0.5f32, 1.0, -1.0, 2.0, -50.0, 7.0];
    let n = vals_a.len();
    let mut a_inplace = single(&vals_a, &[n]);
    let b = single(&vals_b, &[n]);
    a_inplace.add_(&b).unwrap();

    let a_alloc = single(&vals_a, &[n]);
    let expected = a_alloc.add(&b).unwrap();

    assert_eq!(to_f32(&a_inplace), to_f32(&expected));
    let exact: Vec<f32> = vals_a.iter().zip(vals_b.iter()).map(|(a, b)| a + b).collect();
    assert_eq!(to_f32(&expected), exact);
    assert_eq!(to_f32(&a_alloc), vals_a);
    assert_eq!(to_f32(&b), vals_b);
}

#[test]
fn sub_inplace_matches_sub_cpu() {
    let vals_a = vec![5.0f32, -2.0, 10.0, 0.0];
    let vals_b = vec![1.0f32, 1.0, 3.0, -1.0];
    let n = vals_a.len();
    let mut a_inplace = single(&vals_a, &[n]);
    let b = single(&vals_b, &[n]);
    a_inplace.sub_(&b).unwrap();

    let a_alloc = single(&vals_a, &[n]);
    let expected = a_alloc.sub(&b).unwrap();

    assert_eq!(to_f32(&a_inplace), to_f32(&expected));
    let exact: Vec<f32> = vals_a.iter().zip(vals_b.iter()).map(|(a, b)| a - b).collect();
    assert_eq!(to_f32(&expected), exact);
    assert_eq!(to_f32(&a_alloc), vals_a);
    assert_eq!(to_f32(&b), vals_b);
}

#[test]
fn mul_inplace_matches_mul_cpu() {
    let vals_a = vec![2.0f32, -1.0, 0.5, 4.0];
    let vals_b = vec![3.0f32, 2.0, -2.0, 0.25];
    let n = vals_a.len();
    let mut a_inplace = single(&vals_a, &[n]);
    let b = single(&vals_b, &[n]);
    a_inplace.mul_(&b).unwrap();

    let a_alloc = single(&vals_a, &[n]);
    let expected = a_alloc.mul(&b).unwrap();

    assert_eq!(to_f32(&a_inplace), to_f32(&expected));
    let exact: Vec<f32> = vals_a.iter().zip(vals_b.iter()).map(|(a, b)| a * b).collect();
    assert_eq!(to_f32(&expected), exact);
    assert_eq!(to_f32(&a_alloc), vals_a);
    assert_eq!(to_f32(&b), vals_b);
}

#[test]
fn all_kernel_types_are_taken() {
    let mut a = double(&[1.5, 2.5], &[2]);
    a.mul_(&double(&[2.0, 4.0], &[2])).unwrap();
    assert_eq!(to_f32(&a), [3.0, 10.0]);
    let mut a = half_precision(&[1.5, 2.5], &[2]);
    a.sub_(&half_precision(&[0.5, 4.0], &[2])).unwrap();
    assert_eq!(to_f32(&a), [1.0, -1.5]);
    let mut a = brain(&[1.5, 2.5], &[2]);
    a.add_(&brain(&[0.5, 4.0], &[2])).unwrap();
    assert_eq!(to_f32(&a), [2.0, 6.5]);
    let mut a = bytes(&[7, 9]);
    a.mul_(&bytes(&[3, 2])).unwrap();
    assert_eq!(to_u8(&a), [21, 18]);
    let mut a = longs(&[-7, 9]);
    a.sub_(&longs(&[3, 20])).unwrap();
    assert_eq!(to_i64(&a), [-10, -11]);
}

#[test]
fn unsigned_elements_saturate() {
    let mut a = bytes(&[200, 3, 20]);
    a.add_(&bytes(&[100, 250, 1])).unwrap();
    assert_eq!(to_u8(&a), [255, 253, 21]);
    let mut a = bytes(&[3, 200]);
    a.sub_(&bytes(&[5, 1])).unwrap();
    assert_eq!(to_u8(&a), [0, 199]);
    let mut a = words(&[u32::MAX, 3, 70_000]);
    a.add_(&words(&[1, 4, 0])).unwrap();
    assert_eq!(to_u32(&a), [u32::MAX, 7, 70_000]);
    let mut a = words(&[70_000, 65_535]);
    a.mul_(&words(&[70_000, 65_537])).unwrap();
    assert_eq!(to_u32(&a), [u32::MAX, u32::MAX]);
}

#[test]
fn bytes_agree_with_single_precision() {
    for a in 0..=255u8 {
        for b in 0..=255u8 {
            assert_eq!(u8::combine(BinaryOp::Add, a, b), (a as f32 + b as f32) as u8);
            assert_eq!(u8::combine(BinaryOp::Sub, a, b), (a as f32 - b as f32) as u8);
            assert_eq!(u8::combine(BinaryOp::Mul, a, b), (a as f32 * b as f32) as u8);
        }
    }
}

#[test]
fn words_agree_with_double_precision() {
    let samples = [0u32, 1, 2, 3, 7, 65_535, 65_536, 65_537, 1 << 31, u32::MAX - 1, u32::MAX];
    for a in samples {
        for b in samples {
            assert_eq!(u32::combine(BinaryOp::Add, a, b), (a as f64 + b as f64) as u32);
            assert_eq!(u32::combine(BinaryOp::Sub, a, b), (a as f64 - b as f64) as u32);
            assert_eq!(u32::combine(BinaryOp::Mul, a, b), (a as f64 * b as f64) as u32);
        }
    }
}

#[test]
fn long_integers_are_combined_exactly() {
    let mut samples: Vec<i64> = vec![0, 1, 2, 3, 5, 1_000_003, i64::MAX, i64::MAX - 1, i64::MIN, i64::MIN + 1];
    for e in [30, 31, 32, 52, 53, 54, 55, 60, 61, 62] {
        for d in -5..=5 {
            samples.push((1i64 << e) + d);
            samples.push(-(1i64 << e) + d);
        }
    }
    for &a in &samples {
        for &b in &samples {
            assert_eq!(i64::combine(BinaryOp::Add, a, b), a.saturating_add(b));
            assert_eq!(i64::combine(BinaryOp::Sub, a, b), a.saturating_sub(b));
            assert_eq!(i64::combine(BinaryOp::Mul, a, b), a.saturating_mul(b));
        }
    }
}

#[test]
fn adding_zero_leaves_long_integers_as_they_are() {
    let mut a = longs(&[9007199254740993, 12, i64::MIN]);
    a.add_(&longs(&[0, 30, 0])).unwrap();
    assert_eq!(to_i64(&a), [9007199254740993, 42, i64::MIN]);
}

#[test]
fn subtracting_undoes_adding() {
    let mut a = words(&[5, 1000, u32::MAX - 7]);
    let b = words(&[6, 24, 7]);
    a.add_(&b).unwrap();
    a.sub_(&b).unwrap();
    assert_eq!(to_u32(&a), [5, 1000, u32::MAX - 7]);
    let mut a = bytes(&[5, 100]);
    let b = bytes(&[250, 24]);
    a.add_(&b).unwrap();
    assert_eq!(to_u8(&a), [255, 124]);
    a.sub_(&b).unwrap();
    assert_eq!(to_u8(&a), [5, 100]);
}

#[test]
fn elements_outside_the_view_stay() {
    let storage = CpuStorage::U32(vec![1, 2, 3, 4, 5]);
    let layout = Layout { dims: vec![2], stride: vec![1], start_offset: 2 };
    let mut a: Tensor<Host> = Tensor::from_parts(storage, layout).unwrap();
    let storage = CpuStorage::U32(vec![100, 200, 300]);
    let layout = Layout { dims: vec![2], stride: vec![1], start_offset: 1 };
    let b: Tensor<Host> = Tensor::from_parts(storage, layout).unwrap();
    a.add_(&b).unwrap();
    assert_eq!(to_u32(&a), [1, 2, 203, 304, 5]);
}

#[test]
fn operands_have_to_be_contiguous() {
    let transposed = || {
        let storage = CpuStorage::U32(vec![1, 2, 3, 4, 5, 6]);
        let layout = Layout { dims: vec![3, 2], stride: vec![1, 3], start_offset: 0 };
        Tensor::<Host>::from_parts(storage, layout).unwrap()
    };
    let plain = || tensor(CpuStorage::U32(vec![1, 2, 3, 4, 5, 6]), &[3, 2]);
    let mut a = transposed();
    let e = a.add_(&plain()).unwrap_err();
    assert!(matches!(e, Error::RequiresContiguous { op: "add_" }));
    assert_eq!(e.message(), "add_ only supports contiguous tensors");
    let mut a = plain();
    let e = a.add_(&transposed()).unwrap_err();
    assert_eq!(e.message(), "add only supports contiguous tensors");
    assert_eq!(to_u32(&a), [1, 2, 3, 4, 5, 6]);
    // A tensor that is not contiguous is refused as such, shared or not.
    let mut a = transposed();
    let _a2 = a.clone();
    assert!(matches!(a.mul_(&plain()), Err(Error::RequiresContiguous { op: "mul_" })));
}

#[test]
fn shapes_have_to_agree() {
    let mut a = single(&[1.0, 2.0, 3.0, 4.0], &[2, 2]);
    let e = a.sub_(&single(&[1.0, 2.0, 3.0, 4.0], &[4])).unwrap_err();
    assert_eq!(e.message(), "shape mismatch in sub_, lhs: [2, 2], rhs: [4]");
    let e = a.add_relu(&single(&[], &[0, 10])).err().unwrap();
    assert_eq!(e.message(), "shape mismatch in add_relu, lhs: [2, 2], rhs: [0, 10]");
}

#[test]
fn types_have_to_agree() {
    let mut a = single(&[1.0, 2.0], &[2]);
    let e = a.mul_(&words(&[1, 2])).unwrap_err();
    assert_eq!(e.message(), "dtype mismatch or unsupported dtype in mul");
    let mut a = tensor(CpuStorage::I32(vec![1, 2]), &[2]);
    let e = a.add_(&tensor(CpuStorage::I32(vec![1, 2]), &[2])).unwrap_err();
    assert_eq!(e.message(), "dtype mismatch or unsupported dtype in add");
    let e = words(&[1]).add_relu(&words(&[1])).err().unwrap();
    assert_eq!(e.message(), "add_relu: unsupported dtype combination");
    let e = single(&[1.0], &[1]).add_relu(&double(&[1.0], &[1])).err().unwrap();
    assert!(matches!(e, Error::AddReluDType));
}

#[test]
fn allocating_operations_check_their_operands() {
    let a = single(&[1.0, 2.0], &[2]);
    let e = a.sub(&single(&[1.0, 2.0], &[1, 2])).err().unwrap();
    assert_eq!(e.message(), "shape mismatch in sub, lhs: [2], rhs: [1, 2]");
    let e = a.mul(&words(&[1, 2])).err().unwrap();
    assert_eq!(e.message(), "dtype mismatch in mul, lhs: F32, rhs: U32");
    let short = tensor(CpuStorage::I16(vec![1, 2]), &[2]);
    let e = short.add(&short).err().unwrap();
    assert_eq!(e.message(), "unsupported dtype I16 for op add");
    let e = words(&[1]).relu().err().unwrap();
    assert_eq!(e.message(), "unsupported dtype U32 for op relu");
}

#[test]
fn allocating_operations_read_strided_operands() {
    let storage = CpuStorage::U32(vec![1, 2, 3, 4, 5, 6]);
    let layout = Layout { dims: vec![3, 2], stride: vec![1, 3], start_offset: 0 };
    let a: Tensor<Host> = Tensor::from_parts(storage, layout).unwrap();
    let b = tensor(CpuStorage::U32(vec![10, 20, 30, 40, 50, 60]), &[3, 2]);
    assert_eq!(to_u32(&a.add(&b).unwrap()), [11, 24, 32, 45, 53, 66]);
}

#[test]
fn access_decides_what_is_refused() {
    let layout = Layout::contiguous(vec![2]);
    let rhs = words(&[3, 4]);
    let mut storage: CpuStorage<Host> = CpuStorage::U32(vec![10, 20]);
    Tensor::apply_with(Some(&mut storage), &layout, &rhs, BinaryOp::Mul, "mul_").unwrap();
    assert!(matches!(&storage, CpuStorage::U32(v) if *v == vec![30, 80]));
    let r = Tensor::<Host>::apply_with(None, &layout, &rhs, BinaryOp::Mul, "mul_");
    assert!(matches!(r, Err(Error::SharedStorage { op: "mul_" })));
}

#[test]
fn shared_storage_is_named_in_the_message() {
    let mut a = words(&[1]);
    let _keep = a.clone();
    let e = a.sub_(&words(&[1])).unwrap_err();
    assert_eq!(
        e.message(),
        "in-place op 'sub_' requires unique ownership of storage (Arc count > 1)"
    );
}

#[test]
fn eligibility_follows_what_is_known_of_the_storage() {
    let layout = Layout::contiguous(vec![2, 3]);
    assert!(Tensor::<Host>::assert_inplace_eligible(&layout, "add_", true).is_ok());
    assert!(matches!(
        Tensor::<Host>::assert_inplace_eligible(&layout, "add_", false),
        Err(Error::SharedStorage { op: "add_" })
    ));
    let strided = Layout { dims: vec![2, 3], stride: vec![1, 2], start_offset: 0 };
    assert!(matches!(
        Tensor::<Host>::assert_inplace_eligible(&strided, "add_", false),
        Err(Error::RequiresContiguous { op: "add_" })
    ));
}

#[test]
fn rectified_sum_reads_strided_operands() {
    let storage = CpuStorage::F32([1.0f32, 2.0, 3.0, 4.0, 5.0, 6.0].map(Single).to_vec());
    let layout = Layout { dims: vec![3, 2], stride: vec![1, 3], start_offset: 0 };
    let a: Tensor<Host> = Tensor::from_parts(storage, layout).unwrap();
    let b = single(&[0.0, -10.0, 0.0, 0.0, -3.5, 1.0], &[3, 2]);
    let c = a.add_relu(&b).unwrap();
    assert_eq!(to_f32(&c), [1.0, 0.0, 2.0, 5.0, 0.0, 7.0]);
    assert!(c.layout.is_contiguous());
}

#[test]
fn rectified_sum_of_every_float_type() {
    let a = [-1.0f32, 0.5, 2.0];
    let b = [0.5f32, 0.25, -4.0];
    let expected = [0.0f32, 0.75, 0.0];
    assert_eq!(to_f32(&brain(&a, &[3]).add_relu(&brain(&b, &[3])).unwrap()), expected);
    assert_eq!(
        to_f32(&half_precision(&a, &[3]).add_relu(&half_precision(&b, &[3])).unwrap()),
        expected
    );
    let a64 = a.map(|v| v as f64);
    let b64 = b.map(|v| v as f64);
    assert_eq!(to_f32(&double(&a64, &[3]).add_relu(&double(&b64, &[3])).unwrap()), expected);
}

#[test]
fn rectified_sum_is_never_below_zero() {
    let patterns = [0x0000u16, 0x8000, 0x3f80, 0xbf80, 0x7f80, 0xff80, 0x7fc0, 0xffc1, 0x0001, 0x8001];
    for a in patterns {
        for b in patterns {
            let r = candle_gnn::element::add_rectified(Bf16 { bits: a }, Bf16 { bits: b });
            let s = half::bf16::from_bits(a) + half::bf16::from_bits(b);
            let expected = if s > half::bf16::ZERO { s } else { half::bf16::ZERO };
            assert_eq!(r.bits, expected.to_bits());
            assert!(r.bits <= 0x7f80);
        }
    }
}

#[test]
fn brain_numbers_are_combined_as_at_single_precision() {
    let samples = [0.0f32, -0.0, 1.0, -1.5, 3.140625, 1e10, -2.5e-8, f32::INFINITY, 65536.0];
    for x in samples {
        for y in samples {
            let a = half::bf16::from_f32(x);
            let b = half::bf16::from_f32(y);
            let pair = (Bf16 { bits: a.to_bits() }, Bf16 { bits: b.to_bits() });
            for op in [BinaryOp::Add, BinaryOp::Sub, BinaryOp::Mul] {
                let exact = match op {
                    BinaryOp::Add => a.to_f32() + b.to_f32(),
                    BinaryOp::Sub => a.to_f32() - b.to_f32(),
                    BinaryOp::Mul => a.to_f32() * b.to_f32(),
                };
                let r = half::bf16::from_bits(Bf16::combine(op, pair.0, pair.1).bits);
                let expected = half::bf16::from_f32(exact);
                assert!(r.to_bits() == expected.to_bits() || (r.is_nan() && expected.is_nan()));
            }
        }
    }
}

#[test]
fn brain_numbers_know_their_sign() {
    assert!(Bf16 { bits: 0x0001 }.is_positive());
    assert!(Bf16 { bits: 0x7f80 }.is_positive());
    assert!(!Bf16 { bits: 0x0000 }.is_positive());
    assert!(!Bf16 { bits: 0x8000 }.is_positive());
    assert!(!Bf16 { bits: 0xbf80 }.is_positive());
    assert!(!Bf16 { bits: 0x7fc0 }.is_positive());
}

#[test]
fn parts_that_do_not_fit_make_no_tensor() {
    let far = Layout { dims: vec![2], stride: vec![4], start_offset: 1 };
    assert!(Tensor::<Host>::from_parts(CpuStorage::U8(vec![0; 5]), far).is_none());
    let near = Layout { dims: vec![2], stride: vec![4], start_offset: 1 };
    assert!(Tensor::<Host>::from_parts(CpuStorage::U8(vec![0; 6]), near).is_some());
    let ragged = Layout { dims: vec![2, 2], stride: vec![1], start_offset: 0 };
    assert!(Tensor::<Host>::from_parts(CpuStorage::U8(vec![0; 6]), ragged).is_none());
    let none = Layout { dims: vec![3, 0], stride: vec![7, 9], start_offset: 0 };
    assert!(Tensor::<Host>::from_parts(CpuStorage::U8(vec![]), none).is_some());
}

#[test]
fn layouts_count_and_place_their_elements() {
    let l = Layout::contiguous(vec![2, 3, 4]);
    assert_eq!(l.stride, vec![12, 4, 1]);
    assert_eq!(l.elem_count(), 24);
    assert!(l.is_contiguous());
    assert_eq!(l.contiguous_offsets(), Some((0, 24)));
    let t = Layout { dims: vec![3, 2], stride: vec![1, 3], start_offset: 5 };
    assert!(!t.is_contiguous());
    assert_eq!(t.contiguous_offsets(), None);
    let places: Vec<usize> = (0..6).map(|k| t.offset(k)).collect();
    assert_eq!(places, [5, 8, 6, 9, 7, 10]);
    // The stride of a dimension of size one does not matter.
    let one = Layout { dims: vec![1, 3], stride: vec![17, 1], start_offset: 2 };
    assert!(one.is_contiguous());
    assert_eq!(one.contiguous_offsets(), Some((2, 5)));
}
