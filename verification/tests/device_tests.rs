//! Device bookkeeping, graphs and kernel modules.

use candle_gnn::bfloat::Bf16;
use candle_gnn::device::{
    AllocPath, AllocPlan, CudaDevice, CudaError, DeviceId, DeviceIds, Fill, DEFAULT_SEED,
};
use candle_gnn::dtype::DType;
use candle_gnn::element::{BinaryOp, Element, Real};
use candle_gnn::graph::{GraphAction, GraphEvent, GraphRun};
use candle_gnn::modules::{CustomModules, KernelStep, ModuleStore};
use candle_gnn::storage::{CpuStorage, Precision};

#[derive(Clone, Copy, Debug, PartialEq)]
struct Half(half::f16);

#[derive(Clone, Copy, Debug, PartialEq)]
struct Single(f32);

#[derive(Clone, Copy, Debug, PartialEq)]
struct Double(f64);

impl Element for Half {
    fn combine(op: BinaryOp, a: Half, b: Half) -> Half {
        Half(match op {
            BinaryOp::Add => a.0 + b.0,
            BinaryOp::Sub => a.0 - b.0,
            BinaryOp::Mul => a.0 * b.0,
        })
    }
}

impl Element for Single {
    fn combine(op: BinaryOp, a: Single, b: Single) -> Single {
        Single(match op {
            BinaryOp::Add => a.0 + b.0,
            BinaryOp::Sub => a.0 - b.0,
            BinaryOp::Mul => a.0 * b.0,
        })
    }
}

impl Element for Double {
    fn combine(op: BinaryOp, a: Double, b: Double) -> Double {
        Double(match op {
            BinaryOp::Add => a.0 + b.0,
            BinaryOp::Sub => a.0 - b.0,
            BinaryOp::Mul => a.0 * b.0,
        })
    }
}

impl Real for Half {
    fn zero() -> Half {
        Half(half::f16::ZERO)
    }
    fn is_positive(self) -> bool {
        self.0 > half::f16::ZERO
    }
}

impl Real for Single {
    fn zero() -> Single {
        Single(0.0)
    }
    fn is_positive(self) -> bool {
        self.0 > 0.0
    }
}

impl Real for Double {
    fn zero() -> Double {
        Double(0.0)
    }
    fn is_positive(self) -> bool {
        self.0 > 0.0
    }
}

struct Host;

impl Precision for Host {
    type F16 = Half;
    type F32 = Single;
    type F64 = Double;
    fn bf16_to_f32(x: Bf16) -> Single {
        Single(half::bf16::from_bits(x.bits).to_f32())
    }
    fn f16_to_f32(x: Half) -> Single {
        Single(x.0.to_f32())
    }
    fn f64_to_f32(x: Double) -> Single {
        Single(x.0 as f32)
    }
    fn divide(x: Single, count: u64) -> Single {
        Single(x.0 / count as f32)
    }
}

type Device = CudaDevice<&'static str, &'static str, u32>;

fn device() -> Device {
    CudaDevice::new(&mut DeviceIds::new(), "first", 3)
}

#[test]
fn identifiers_start_at_one_and_differ() {
    let mut ids = DeviceIds::new();
    let drawn: Vec<DeviceId> = (0..5).map(|_| DeviceId::new(&mut ids)).collect();
    assert_eq!(drawn, [1, 2, 3, 4, 5].map(DeviceId));
    assert!(drawn[1].same_device(DeviceId(2)));
    assert!(!drawn[1].same_device(drawn[2]));
}

#[test]
fn identifiers_go_on_at_zero() {
    let mut ids = DeviceIds { next: usize::MAX };
    assert_eq!(DeviceId::new(&mut ids), DeviceId(usize::MAX));
    assert_eq!(DeviceId::new(&mut ids), DeviceId(0));
}

#[test]
fn devices_are_told_apart_by_identity() {
    let mut ids = DeviceIds::new();
    let a: Device = CudaDevice::new(&mut ids, "a", 1);
    let b: Device = CudaDevice::new(&mut ids, "b", 1);
    assert!(a.same_device(&a));
    assert!(!a.same_device(&b));
    assert_eq!(a.id(), DeviceId(1));
    assert_eq!(b.id(), DeviceId(2));
}

#[test]
fn plans_name_their_device() {
    let mut ids = DeviceIds::new();
    let a: Device = CudaDevice::new(&mut ids, "a", 1);
    let b: Device = CudaDevice::new(&mut ids, "b", 1);
    assert_eq!(a.zeros_impl(&vec![2], DType::U8).unwrap().device, DeviceId(1));
    assert_eq!(b.zeros_impl(&vec![2], DType::U8).unwrap().device, DeviceId(2));
    assert_eq!(b.rand_normal(&vec![2], DType::F32, 0, 0).unwrap().alloc.device, DeviceId(2));
}

#[test]
fn seed_is_what_was_set_last() {
    let mut d = device();
    assert_eq!(d.get_current_seed(), 299792458);
    assert_eq!(DEFAULT_SEED, 299792458);
    d.set_seed::<&str>(7, Ok("second")).unwrap();
    assert_eq!(d.get_current_seed(), 7);
    assert_eq!(d.rng.rng, "second");
    assert_eq!(d.set_seed(9, Err("no generator")), Err("no generator"));
    assert_eq!(d.get_current_seed(), 7);
    assert_eq!(d.rng.rng, "second");
}

fn outcome(r: Result<(), &'static str>) -> GraphEvent<u32, &'static str> {
    GraphEvent::Outcome(r)
}

// Runs a step on the outcomes of its actions, and lists the actions.
fn run_step(
    d: &mut Device,
    key: u64,
    begin: Result<(), &'static str>,
    body: Result<(), &'static str>,
    end: Result<Option<u32>, &'static str>,
    upload: Result<(), &'static str>,
) -> (Vec<GraphAction>, Result<(), &'static str>) {
    let mut run: GraphRun<u32, &'static str> = d.with_cuda_graph(key);
    let mut end = Some(end);
    let mut actions = vec![];
    loop {
        let action = run.action();
        let event = match action {
            GraphAction::Nothing => break,
            GraphAction::Launch => outcome(Ok(())),
            GraphAction::BeginCapture => outcome(begin),
            GraphAction::RunBody => outcome(body),
            GraphAction::EndCapture => GraphEvent::Recorded(end.take().unwrap()),
            GraphAction::Upload => outcome(upload),
        };
        actions.push(action);
        run = d.graph_cache.step(key, run, event);
    }
    match run {
        GraphRun::Finished(r) => (actions, r),
        _ => panic!("the step is not over"),
    }
}

#[test]
fn first_step_records_and_later_steps_replay() {
    let mut d = device();
    let (actions, r) = run_step(&mut d, 5, Ok(()), Ok(()), Ok(Some(77)), Ok(()));
    assert_eq!(r, Ok(()));
    assert_eq!(
        actions,
        vec![
            GraphAction::BeginCapture,
            GraphAction::RunBody,
            GraphAction::EndCapture,
            GraphAction::Upload,
        ]
    );
    assert_eq!(d.graph_cache.get(5), Some(&77));
    let (actions, r) = run_step(&mut d, 5, Ok(()), Ok(()), Ok(Some(78)), Ok(()));
    assert_eq!(r, Ok(()));
    assert_eq!(actions, vec![GraphAction::Launch]);
    assert_eq!(d.graph_cache.get(5), Some(&77));
    assert_eq!(d.graph_cache.get(6), None);
}

#[test]
fn work_is_issued_once_over_many_steps() {
    let mut d = device();
    let mut issued = 0;
    let mut replayed = 0;
    for _ in 0..6 {
        let (actions, r) = run_step(&mut d, 9, Ok(()), Ok(()), Ok(Some(1)), Ok(()));
        r.unwrap();
        issued += actions.iter().filter(|a| **a == GraphAction::RunBody).count();
        replayed += actions.iter().filter(|a| **a == GraphAction::Launch).count();
    }
    assert_eq!((issued, replayed), (1, 5));
}

#[test]
fn failed_work_still_ends_the_recording() {
    let mut d = device();
    let (actions, r) = run_step(&mut d, 5, Ok(()), Err("work"), Ok(Some(1)), Ok(()));
    assert_eq!(r, Err("work"));
    assert_eq!(
        actions,
        vec![GraphAction::BeginCapture, GraphAction::RunBody, GraphAction::EndCapture]
    );
    assert_eq!(d.graph_cache.get(5), None);
}

#[test]
fn failure_to_end_goes_before_failed_work() {
    let mut d = device();
    let (_, r) = run_step(&mut d, 5, Ok(()), Err("work"), Err("end"), Ok(()));
    assert_eq!(r, Err("end"));
    let (actions, r) = run_step(&mut d, 5, Err("begin"), Ok(()), Ok(None), Ok(()));
    assert_eq!(r, Err("begin"));
    assert_eq!(actions, vec![GraphAction::BeginCapture]);
    let (_, r) = run_step(&mut d, 5, Ok(()), Ok(()), Ok(Some(1)), Err("upload"));
    assert_eq!(r, Err("upload"));
    assert_eq!(d.graph_cache.get(5), None);
    let (actions, r) = run_step(&mut d, 5, Ok(()), Ok(()), Ok(None), Ok(()));
    assert_eq!(r, Ok(()));
    assert_eq!(actions.len(), 3);
    assert_eq!(d.graph_cache.get(5), None);
}

#[test]
fn graphs_are_forgotten_by_key_or_all_at_once() {
    let mut d = device();
    for key in [1, 2, 3] {
        run_step(&mut d, key, Ok(()), Ok(()), Ok(Some(key as u32)), Ok(())).1.unwrap();
    }
    d.invalidate_cuda_graph(2);
    assert_eq!(d.graph_cache.get(1), Some(&1));
    assert_eq!(d.graph_cache.get(2), None);
    let (actions, _) = run_step(&mut d, 2, Ok(()), Ok(()), Ok(Some(22)), Ok(()));
    assert_eq!(actions[0], GraphAction::BeginCapture);
    assert_eq!(d.graph_cache.get(2), Some(&22));
    d.clear_cuda_graph_cache();
    assert_eq!(d.graph_cache.get(1), None);
    assert_eq!(d.graph_cache.get(3), None);
}

#[test]
fn modules_are_loaded_once() {
    let mut d = device();
    assert_eq!(d.get_or_load_func(1), KernelStep::LoadModule);
    d.modules.install::<&str>(1, Ok("unary")).unwrap();
    assert_eq!(d.get_or_load_func(1), KernelStep::LoadFunction);
    assert_eq!(d.get_or_load_func(0), KernelStep::LoadModule);
    assert_eq!(d.modules.get(1), Some(&"unary"));
    assert_eq!(d.modules.install(2, Err("bad image")), Err("bad image"));
    assert_eq!(d.get_or_load_func(2), KernelStep::LoadModule);
}

#[test]
fn custom_modules_are_loaded_once() {
    let mut d = device();
    assert_eq!(d.get_or_load_custom_func("mine"), KernelStep::LoadModule);
    d.custom_modules.install::<&str>("mine".to_string(), Ok("image")).unwrap();
    assert_eq!(d.get_or_load_custom_func("mine"), KernelStep::LoadFunction);
    assert_eq!(d.get_or_load_custom_func("yours"), KernelStep::LoadModule);
    assert_eq!(d.custom_modules.get("mine"), Some(&"image"));
    assert_eq!(d.custom_modules.install("yours".to_string(), Err("bad")), Err("bad"));
    assert_eq!(d.custom_modules.get("yours"), None);
}

#[test]
fn stores_start_empty() {
    let store: ModuleStore<u8> = ModuleStore::new(2);
    assert_eq!(store.mdls, vec![None, None]);
    assert_eq!(store.step(1), KernelStep::LoadModule);
    let custom: CustomModules<u8> = CustomModules::new();
    assert_eq!(custom.step("any"), KernelStep::LoadModule);
}

const ALL: [DType; 14] = [
    DType::U8,
    DType::U32,
    DType::I16,
    DType::I32,
    DType::I64,
    DType::BF16,
    DType::F16,
    DType::F32,
    DType::F64,
    DType::F8E4M3,
    DType::F6E2M3,
    DType::F6E3M2,
    DType::F4,
    DType::F8E8M0,
];

#[test]
fn zeros_and_uninitialised_tensors_take_the_same_types() {
    let d = device();
    for dtype in ALL {
        let placeholder = matches!(
            dtype,
            DType::F6E2M3 | DType::F6E3M2 | DType::F4 | DType::F8E8M0
        );
        for (plan, fill) in [
            (d.zeros_impl(&vec![3, 4], dtype), Fill::Zeros),
            (d.alloc_uninit(&vec![3, 4], dtype), Fill::Unset),
        ] {
            match plan {
                Ok(plan) => {
                    assert!(!placeholder);
                    assert_eq!(plan, AllocPlan { device: d.id(), dtype, len: 12, fill });
                }
                Err(CudaError::InternalError(text)) => {
                    assert!(placeholder);
                    assert_eq!(text, "Dummy types not supported in CUDA backend");
                }
                Err(_) => panic!("another error"),
            }
        }
        match d.storage_from_slice(dtype, 9) {
            Ok(plan) => {
                assert!(!placeholder);
                assert_eq!(plan, AllocPlan { device: d.id(), dtype, len: 9, fill: Fill::Upload });
            }
            Err(CudaError::UnsupportedDtype { dtype: t, op }) => {
                assert!(placeholder);
                assert_eq!(t, dtype);
                assert_eq!(op, "storage_from_slice");
            }
            Err(_) => panic!("another error"),
        }
    }
    assert_eq!(d.zeros_impl(&vec![], DType::U8).unwrap().len, 1);
    assert_eq!(d.zeros_impl(&vec![0, usize::MAX, usize::MAX], DType::U8).unwrap().len, 0);
}

#[test]
fn storages_are_uploaded_as_they_are() {
    let d = device();
    let s: CpuStorage<Host> = CpuStorage::I16(vec![1, 2, 3]);
    let plan = d.storage_from_cpu_storage(&s).unwrap();
    assert_eq!(plan, AllocPlan { device: d.id(), dtype: DType::I16, len: 3, fill: Fill::Upload });
    let (plan, back) = d.storage_from_cpu_storage_owned(s).ok().unwrap();
    assert_eq!(plan, AllocPlan { device: d.id(), dtype: DType::I16, len: 3, fill: Fill::Upload });
    assert!(matches!(back, CpuStorage::I16(v) if v == vec![1, 2, 3]));
    let dummy: CpuStorage<Host> = CpuStorage::F4(vec![1]);
    assert!(matches!(
        d.storage_from_cpu_storage(&dummy),
        Err(CudaError::UnsupportedDtype { dtype: DType::F4, op: "storage_from_cpu_storage" })
    ));
    assert!(matches!(
        d.storage_from_cpu_storage_owned(dummy),
        Err(CudaError::UnsupportedDtype { dtype: DType::F4, op: "storage_from_cpu_storage_owned" })
    ));
}

#[test]
fn uniform_numbers_are_scaled_unless_they_fit() {
    let d = device();
    let plan = |lo: f64, up: f64| {
        d.rand_uniform(&vec![2, 3], DType::F32, lo.to_bits(), up.to_bits()).unwrap()
    };
    let alloc = AllocPlan { device: d.id(), dtype: DType::F32, len: 6, fill: Fill::Unset };
    assert_eq!(plan(0.0, 1.0).alloc, alloc);
    assert_eq!(f64::from_bits(plan(-3.0, 2.5).lo), -3.0);
    assert_eq!(f64::from_bits(plan(-3.0, 2.5).up), 2.5);
    assert!(!plan(0.0, 1.0).affine);
    assert!(!plan(-0.0, 1.0).affine);
    assert!(plan(0.0, 2.0).affine);
    assert!(plan(-1.0, 1.0).affine);
    assert!(plan(f64::NAN, 1.0).affine);
    for dtype in ALL {
        let r = d.rand_uniform(&vec![2], dtype, 0, 0);
        match dtype {
            DType::F32 | DType::F64 => assert!(r.is_ok()),
            _ => assert!(matches!(
                r,
                Err(CudaError::UnsupportedDtype { op: "rand_uniform", .. })
            )),
        }
    }
}

#[test]
fn normal_numbers_come_in_pairs() {
    let d = device();
    let plan = |dims: &Vec<usize>, dtype: DType| {
        d.rand_normal(dims, dtype, 0.5f64.to_bits(), 2.0f64.to_bits())
    };
    let odd = plan(&vec![3, 5], DType::F64).unwrap();
    assert_eq!(odd.alloc, AllocPlan { device: d.id(), dtype: DType::F64, len: 16, fill: Fill::Unset });
    assert_eq!(f64::from_bits(odd.mean), 0.5);
    assert_eq!(f64::from_bits(odd.std), 2.0);
    assert_eq!(plan(&vec![4, 5], DType::F64).unwrap().alloc.len, 20);
    assert_eq!(plan(&vec![0], DType::F32).unwrap().alloc.len, 0);
    assert!(matches!(
        plan(&vec![2], DType::F16),
        Err(CudaError::UnsupportedDtype { dtype: DType::F16, op: "rand_normal" })
    ));
}

#[test]
fn memory_is_stream_ordered_where_it_can_be() {
    let d = device();
    assert_eq!(d.alloc_async(7, true), AllocPath::StreamOrdered { len: 7 });
    assert_eq!(d.alloc_async(7, false), AllocPath::Synchronous { len: 7 });
}
