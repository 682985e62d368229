//! Device bookkeeping: identities, random generators, and what to allocate for a
//! tensor.

use vstd::prelude::*;

use crate::dtype::DType;
use crate::graph::{GraphCache, GraphRun};
use crate::layout::{dims_count, element_count};
use crate::modules::{kernel_step, CustomModules, KernelStep, ModuleStore};
use crate::storage::{CpuStorage, Precision};

verus! {

/// Unique identifier of a device.
#[derive(Clone, Copy, Debug, PartialEq, Eq, Hash, Structural)]
pub struct DeviceId(pub usize);

/// Where device identifiers are drawn from.
#[derive(Debug)]
pub struct DeviceIds {
    pub next: usize,
}

/// The number of different identifiers.
pub open spec fn id_count() -> int {
    usize::MAX + 1
}

/// The identifier that the `k`-th draw from a new source gives, counted from zero.
pub open spec fn nth_id(k: int) -> int {
    (1 + k) % id_count()
}

impl DeviceIds {
    /// A source whose first identifier is one.
    pub fn new() -> (r: DeviceIds)
        ensures
            r.next == nth_id(0),
    {
        proof {
            vstd::arithmetic::div_mod::lemma_small_mod(1, id_count() as nat);
        }
        DeviceIds { next: 1 }
    }
}

impl DeviceId {
    /// Draws an identifier. After the largest number the count goes on at zero.
    pub fn new(ids: &mut DeviceIds) -> (r: DeviceId)
        ensures
            r.0 == old(ids).next,
            final(ids).next == (old(ids).next + 1) % id_count(),
    {
        let id: usize = ids.next;
        proof {
            if id == usize::MAX {
                vstd::arithmetic::div_mod::lemma_mod_self_0(id_count());
            } else {
                vstd::arithmetic::div_mod::lemma_small_mod((id + 1) as nat, id_count() as nat);
            }
        }
        ids.next = if id == usize::MAX {
            0
        } else {
            id + 1
        };
        DeviceId(id)
    }

    /// Whether two identifiers name the same device.
    pub fn same_device(self, rhs: DeviceId) -> (r: bool)
        ensures
            r == (self == rhs),
    {
        self.0 == rhs.0
    }
}

/// If the next identifier is the `k`-th, then after drawing it the next is the one
/// after it: draws from a new source give `nth_id(0)`, `nth_id(1)` and so on.
pub proof fn law_ids_in_order(before: DeviceIds, after: DeviceIds, k: int)
    requires
        k >= 0,
        before.next == nth_id(k),
        after.next == (before.next + 1) % id_count(),
    ensures
        after.next == nth_id(k + 1),
{
    vstd::arithmetic::div_mod::lemma_add_mod_noop(1 + k, 1, id_count());
}

/// Identifiers are unique: of as many draws as there are machine words, no two give
/// the same one.
pub proof fn law_ids_unique(i: int, j: int)
    requires
        0 <= i < j < i + id_count(),
    ensures
        nth_id(i) != nth_id(j),
{
    if nth_id(i) == nth_id(j) {
        vstd::arithmetic::div_mod::lemma_mod_equivalence(1 + j, 1 + i, id_count());
        vstd::arithmetic::div_mod::lemma_small_mod((j - i) as nat, id_count() as nat);
    }
}

/// The seed that a generator starts with.
pub const DEFAULT_SEED: u64 = 299792458;

/// The random generator of a device and the seed that it was made with.
pub struct SeededRng<R> {
    pub rng: R,
    pub seed: u64,
}

impl<R> SeededRng<R> {
    /// A generator that was made with the default seed.
    pub fn new(rng: R) -> (r: SeededRng<R>)
        ensures
            r.rng == rng,
            r.seed == DEFAULT_SEED,
    {
        SeededRng { rng, seed: DEFAULT_SEED }
    }

    /// Puts a generator that was made with `seed` in the place of the present one.
    /// If none could be made, generator and seed stay as they are.
    pub fn set_seed<E>(&mut self, seed: u64, made: Result<R, E>) -> (r: Result<(), E>)
        ensures
            match made {
                Ok(rng) => r is Ok && final(self).rng == rng && final(self).seed == seed,
                Err(e) => r == Err::<(), E>(e) && *final(self) == *old(self),
            },
    {
        match made {
            Ok(rng) => {
                self.rng = rng;
                self.seed = seed;
                Ok(())
            },
            Err(e) => Err(e),
        }
    }

    /// The seed of the present generator.
    pub fn get_current_seed(&self) -> (r: u64)
        ensures
            r == self.seed,
    {
        self.seed
    }
}

/// How device memory for `len` elements is allocated.
#[derive(Clone, Copy, Debug, PartialEq, Eq, Structural)]
pub enum AllocPath {
    /// In the order of the stream.
    StreamOrdered { len: usize },
    /// With the whole device waiting.
    Synchronous { len: usize },
}

/// What new device memory holds.
#[derive(Clone, Copy, Debug, PartialEq, Eq, Structural)]
pub enum Fill {
    /// Zeros.
    Zeros,
    /// Nothing yet: it is to be written before it is read.
    Unset,
    /// A copy of elements of the host.
    Upload,
}

/// Why the device refuses a tensor.
#[derive(Clone, Copy, Debug)]
pub enum CudaError {
    /// The operation does not take this type.
    UnsupportedDtype { dtype: DType, op: &'static str },
    /// The device has no memory for this type.
    InternalError(&'static str),
}

/// Device memory for the elements of a tensor.
#[derive(Clone, Copy, Debug, PartialEq, Eq, Structural)]
pub struct AllocPlan {
    /// The device that holds the memory.
    pub device: DeviceId,
    /// The type of the elements.
    pub dtype: DType,
    /// The number of elements to allocate.
    pub len: usize,
    /// What the memory holds.
    pub fill: Fill,
}

/// What a new tensor of these dimensions and this type takes, if the device has
/// memory for the type.
pub open spec fn new_tensor(device: DeviceId, dims: Seq<usize>, dtype: DType, fill: Fill) -> Result<
    AllocPlan,
    CudaError,
> {
    if dtype.is_placeholder() {
        Err(CudaError::InternalError("Dummy types not supported in CUDA backend"))
    } else {
        Ok(AllocPlan { device, dtype, len: element_count(dims) as usize, fill })
    }
}

/// What `len` host elements of this type take on the device, if `op` takes the type.
pub open spec fn uploaded(device: DeviceId, dtype: DType, len: nat, op: &'static str) -> Result<
    AllocPlan,
    CudaError,
> {
    if dtype.is_placeholder() {
        Err(CudaError::UnsupportedDtype { dtype, op })
    } else {
        Ok(AllocPlan { device, dtype, len: len as usize, fill: Fill::Upload })
    }
}

/// Device memory for evenly spread random numbers, and what to draw into it. Bounds
/// are given by their bit patterns at double precision.
#[derive(Clone, Copy, Debug, PartialEq, Eq, Structural)]
pub struct UniformPlan {
    pub alloc: AllocPlan,
    pub lo: u64,
    pub up: u64,
    /// Whether the numbers, drawn between zero and one, are yet to be scaled.
    pub affine: bool,
}

/// Device memory for normally distributed random numbers, and what to draw into it.
/// Mean and deviation are given by their bit patterns at double precision.
#[derive(Clone, Copy, Debug, PartialEq, Eq, Structural)]
pub struct NormalPlan {
    pub alloc: AllocPlan,
    pub mean: u64,
    pub std: u64,
}

/// Whether a double-precision number, by its bit pattern, is zero.
pub open spec fn is_zero_bits(bits: u64) -> bool {
    bits == 0 || bits == 0x8000_0000_0000_0000
}

/// The bit pattern of one at double precision.
pub const ONE_DOUBLE_BITS: u64 = 0x3ff0_0000_0000_0000;

/// The types that the device draws random numbers of.
pub open spec fn is_random(dtype: DType) -> bool {
    dtype is F32 || dtype is F64
}

/// The smallest even number that is not smaller than `n`.
pub open spec fn rounded_up_to_even(n: nat) -> nat {
    n + n % 2
}

/// Plans the upload of `len` elements.
fn upload(device: DeviceId, dtype: DType, len: usize, op: &'static str) -> (r: Result<
    AllocPlan,
    CudaError,
>)
    ensures
        r == uploaded(device, dtype, len as nat, op),
{
    match dtype {
        DType::F6E2M3 | DType::F6E3M2 | DType::F4 | DType::F8E8M0 => Err(
            CudaError::UnsupportedDtype { dtype, op },
        ),
        _ => Ok(AllocPlan { device, dtype, len, fill: Fill::Upload }),
    }
}

/// Plans the memory of a new tensor.
fn allocate(device: DeviceId, dims: &Vec<usize>, dtype: DType, fill: Fill) -> (r: Result<
    AllocPlan,
    CudaError,
>)
    requires
        element_count(dims@) <= usize::MAX,
    ensures
        r == new_tensor(device, dims@, dtype, fill),
{
    let len: usize = dims_count(dims);
    match dtype {
        DType::F6E2M3 | DType::F6E3M2 | DType::F4 | DType::F8E8M0 => Err(
            CudaError::InternalError("Dummy types not supported in CUDA backend"),
        ),
        _ => Ok(AllocPlan { device, dtype, len, fill }),
    }
}

/// What the host keeps of a device: its identity, the kernel modules that are
/// loaded, the random generator, and the graphs that are recorded. `M`, `R` and `G`
/// stand for modules, generators and graphs on the device.
#[verifier::reject_recursive_types(M)]
#[verifier::reject_recursive_types(G)]
pub struct CudaDevice<M, R, G> {
    pub id: DeviceId,
    pub modules: ModuleStore<M>,
    pub custom_modules: CustomModules<M>,
    pub rng: SeededRng<R>,
    pub graph_cache: GraphCache<G>,
}

impl<M, R, G> CudaDevice<M, R, G> {
    /// A device with an identity of its own, a generator that was made with the
    /// default seed, room for `module_count` modules, and nothing loaded or recorded.
    pub fn new(ids: &mut DeviceIds, rng: R, module_count: usize) -> (r: CudaDevice<M, R, G>)
        ensures
            r.id.0 == old(ids).next,
            final(ids).next == (old(ids).next + 1) % id_count(),
            r.modules.mdls@.len() == module_count,
            forall|i: int| 0 <= i < module_count ==> #[trigger] r.modules.mdls@[i] is None,
            r.custom_modules@ == Map::<Seq<char>, M>::empty(),
            r.rng.rng == rng,
            r.rng.seed == DEFAULT_SEED,
            r.graph_cache@ == Map::<u64, G>::empty(),
    {
        CudaDevice {
            id: DeviceId::new(ids),
            modules: ModuleStore::new(module_count),
            custom_modules: CustomModules::new(),
            rng: SeededRng::new(rng),
            graph_cache: GraphCache::new(),
        }
    }

    /// The identity of the device.
    pub fn id(&self) -> (r: DeviceId)
        ensures
            r == self.id,
    {
        self.id
    }

    /// Whether this is the same device as `rhs`.
    pub fn same_device(&self, rhs: &CudaDevice<M, R, G>) -> (r: bool)
        ensures
            r == (self.id == rhs.id),
    {
        self.id == rhs.id
    }

    /// Puts a generator that was made with `seed` in the place of the present one.
    /// If none could be made, generator and seed stay as they are.
    pub fn set_seed<E>(&mut self, seed: u64, made: Result<R, E>) -> (r: Result<(), E>)
        ensures
            match made {
                Ok(rng) => {
                    &&& r is Ok
                    &&& *final(self) == (CudaDevice { rng: SeededRng { rng, seed }, ..*old(self) })
                },
                Err(e) => r == Err::<(), E>(e) && *final(self) == *old(self),
            },
    {
        self.rng.set_seed(seed, made)
    }

    /// The seed of the present generator.
    pub fn get_current_seed(&self) -> (r: u64)
        ensures
            r == self.rng.seed,
    {
        self.rng.seed
    }

    /// What it takes to get a kernel of the module with the number `index`.
    pub fn get_or_load_func(&self, index: usize) -> (r: KernelStep)
        requires
            index < self.modules.mdls@.len(),
        ensures
            r == kernel_step(self.modules.mdls@[index as int] is Some),
    {
        self.modules.step(index)
    }

    /// What it takes to get a kernel of the module with this name.
    pub fn get_or_load_custom_func(&self, module_name: &str) -> (r: KernelStep)
        ensures
            r == kernel_step(self.custom_modules@.contains_key(module_name@)),
    {
        self.custom_modules.step(module_name)
    }

    /// Starts a step with the key `cache_key`: its graph is replayed if there is
    /// one, and recorded otherwise.
    pub fn with_cuda_graph<E>(&self, cache_key: u64) -> (r: GraphRun<G, E>)
        ensures
            r == GraphRun::<G, E>::started(self.graph_cache@, cache_key),
    {
        self.graph_cache.start(cache_key)
    }

    /// Forgets the graph of a key, so that the next step with it records anew.
    pub fn invalidate_cuda_graph(&mut self, cache_key: u64)
        ensures
            final(self).graph_cache@ == old(self).graph_cache@.remove(cache_key),
            *final(self) == (CudaDevice { graph_cache: final(self).graph_cache, ..*old(self) }),
    {
        self.graph_cache.remove(cache_key)
    }

    /// Forgets all graphs.
    pub fn clear_cuda_graph_cache(&mut self)
        ensures
            final(self).graph_cache@ == Map::<u64, G>::empty(),
            *final(self) == (CudaDevice { graph_cache: final(self).graph_cache, ..*old(self) }),
    {
        self.graph_cache.clear()
    }

    /// Memory is allocated in the order of the stream where the device can do so.
    pub fn alloc_async(&self, len: usize, has_async_alloc: bool) -> (r: AllocPath)
        ensures
            r == (if has_async_alloc {
                AllocPath::StreamOrdered { len }
            } else {
                AllocPath::Synchronous { len }
            }),
    {
        if has_async_alloc {
            AllocPath::StreamOrdered { len }
        } else {
            AllocPath::Synchronous { len }
        }
    }

    /// Plans a tensor of zeros.
    pub fn zeros_impl(&self, dims: &Vec<usize>, dtype: DType) -> (r: Result<AllocPlan, CudaError>)
        requires
            element_count(dims@) <= usize::MAX,
        ensures
            r == new_tensor(self.id, dims@, dtype, Fill::Zeros),
    {
        allocate(self.id, dims, dtype, Fill::Zeros)
    }

    /// Plans a tensor whose elements are yet to be written.
    pub fn alloc_uninit(&self, dims: &Vec<usize>, dtype: DType) -> (r: Result<AllocPlan, CudaError>)
        requires
            element_count(dims@) <= usize::MAX,
        ensures
            r == new_tensor(self.id, dims@, dtype, Fill::Unset),
    {
        allocate(self.id, dims, dtype, Fill::Unset)
    }

    /// Plans the upload of a slice with `len` elements.
    pub fn storage_from_slice(&self, dtype: DType, len: usize) -> (r: Result<AllocPlan, CudaError>)
        ensures
            r == uploaded(self.id, dtype, len as nat, "storage_from_slice"),
    {
        upload(self.id, dtype, len, "storage_from_slice")
    }

    /// Plans the upload of a storage.
    pub fn storage_from_cpu_storage<P: Precision>(&self, storage: &CpuStorage<P>) -> (r: Result<
        AllocPlan,
        CudaError,
    >)
        ensures
            r == uploaded(self.id, storage.spec_dtype(), storage.spec_len(), "storage_from_cpu_storage"),
    {
        upload(self.id, storage.dtype(), storage.len(), "storage_from_cpu_storage")
    }

    /// Plans the upload of a storage that is given up, which is handed back with the plan.
    pub fn storage_from_cpu_storage_owned<P: Precision>(&self, storage: CpuStorage<P>) -> (r: Result<
        (AllocPlan, CpuStorage<P>),
        CudaError,
    >)
        ensures
            match uploaded(self.id, storage.spec_dtype(), storage.spec_len(), "storage_from_cpu_storage_owned") {
                Ok(plan) => r == Ok::<(AllocPlan, CpuStorage<P>), CudaError>((plan, storage)),
                Err(e) => r == Err::<(AllocPlan, CpuStorage<P>), CudaError>(e),
            },
    {
        match upload(self.id, storage.dtype(), storage.len(), "storage_from_cpu_storage_owned") {
            Ok(plan) => Ok((plan, storage)),
            Err(e) => Err(e),
        }
    }

    /// Plans a tensor of numbers that are spread evenly from `lo` up to `up`, both given by
    /// their bit patterns at double precision.
    ///
    /// The device draws numbers between zero and one. For any other range they are
    /// scaled afterwards.
    pub fn rand_uniform(&self, dims: &Vec<usize>, dtype: DType, lo: u64, up: u64) -> (r: Result<
        UniformPlan,
        CudaError,
    >)
        requires
            element_count(dims@) <= usize::MAX,
        ensures
            r == (if is_random(dtype) {
                Ok::<UniformPlan, CudaError>(
                    UniformPlan {
                        alloc: AllocPlan {
                            device: self.id,
                            dtype,
                            len: element_count(dims@) as usize,
                            fill: Fill::Unset,
                        },
                        lo,
                        up,
                        affine: !(is_zero_bits(lo) && up == ONE_DOUBLE_BITS),
                    },
                )
            } else {
                Err(CudaError::UnsupportedDtype { dtype, op: "rand_uniform" })
            }),
    {
        let len: usize = dims_count(dims);
        match dtype {
            DType::F32 | DType::F64 => Ok(
                UniformPlan {
                    alloc: AllocPlan { device: self.id, dtype, len, fill: Fill::Unset },
                    lo,
                    up,
                    affine: !((lo == 0 || lo == 0x8000_0000_0000_0000) && up == ONE_DOUBLE_BITS),
                },
            ),
            _ => Err(CudaError::UnsupportedDtype { dtype, op: "rand_uniform" }),
        }
    }

    /// Plans a tensor of normally distributed numbers. The device draws them in pairs,
    /// so that for an odd number of elements one more is allocated. Mean and deviation
    /// are given by their bit patterns at double precision.
    pub fn rand_normal(&self, dims: &Vec<usize>, dtype: DType, mean: u64, std: u64) -> (r: Result<
        NormalPlan,
        CudaError,
    >)
        requires
            element_count(dims@) < usize::MAX,
        ensures
            r == (if is_random(dtype) {
                Ok::<NormalPlan, CudaError>(
                    NormalPlan {
                        alloc: AllocPlan {
                            device: self.id,
                            dtype,
                            len: rounded_up_to_even(element_count(dims@)) as usize,
                            fill: Fill::Unset,
                        },
                        mean,
                        std,
                    },
                )
            } else {
                Err(CudaError::UnsupportedDtype { dtype, op: "rand_normal" })
            }),
    {
        let len: usize = dims_count(dims);
        let rounded: usize = if len % 2 == 1 {
            len + 1
        } else {
            len
        };
        match dtype {
            DType::F32 | DType::F64 => Ok(
                NormalPlan {
                    alloc: AllocPlan { device: self.id, dtype, len: rounded, fill: Fill::Unset },
                    mean,
                    std,
                },
            ),
            _ => Err(CudaError::UnsupportedDtype { dtype, op: "rand_normal" }),
        }
    }
}

/// The device takes the same types whether a tensor is new or uploaded: all but the
/// placeholders. It allocates, of its own memory, one element for each that the tensor has.
pub proof fn law_one_set_of_types(
    device: DeviceId,
    dims: Seq<usize>,
    dtype: DType,
    fill: Fill,
    op: &'static str,
)
    requires
        element_count(dims) <= usize::MAX,
    ensures
        new_tensor(device, dims, dtype, fill) is Ok == !dtype.is_placeholder(),
        uploaded(device, dtype, element_count(dims), op) is Ok == !dtype.is_placeholder(),
        new_tensor(device, dims, dtype, fill) matches Ok(plan) ==> {
            &&& plan.device == device
            &&& plan.dtype == dtype
            &&& plan.len == element_count(dims)
            &&& plan.fill == fill
        },
        uploaded(device, dtype, element_count(dims), op) matches Ok(plan) ==> {
            &&& plan.device == device
            &&& plan.dtype == dtype
            &&& plan.len == element_count(dims)
            &&& plan.fill == Fill::Upload
        },
{
}

/// Normally distributed numbers are drawn in pairs: the allocation is even, holds
/// every element, and wastes one at most.
pub proof fn law_normal_numbers_come_in_pairs(n: nat)
    ensures
        rounded_up_to_even(n) % 2 == 0,
        n <= rounded_up_to_even(n) <= n + 1,
{
}

/// A new source starts at one. A draw gives the number that is next and makes the following
/// number the next one, with zero behind the largest.
pub proof fn law_draws_count_up(new: DeviceIds, ids: &mut DeviceIds, id: DeviceId)
    requires
        call_ensures(DeviceIds::new, (), new),
        call_ensures(DeviceId::new, (ids,), id),
    ensures
        new.next == 1,
        id.0 == old(ids).next,
        old(ids).next < usize::MAX ==> final(ids).next == old(ids).next + 1,
        old(ids).next == usize::MAX ==> final(ids).next == 0,
{
    vstd::arithmetic::div_mod::lemma_small_mod(1, id_count() as nat);
    let next = old(ids).next;
    if next == usize::MAX {
        vstd::arithmetic::div_mod::lemma_mod_self_0(id_count());
    } else {
        vstd::arithmetic::div_mod::lemma_small_mod((next + 1) as nat, id_count() as nat);
    }
}

/// The `k`-th identifier from a new source is one more than `k`, as long as a machine word
/// holds it, and no two of the first `usize::MAX` identifiers are the same.
pub proof fn law_nth_identifier(k: int, j: int)
    requires
        0 <= k < j < usize::MAX,
    ensures
        nth_id(k) == k + 1,
        nth_id(k) != nth_id(j),
{
    vstd::arithmetic::div_mod::lemma_small_mod((1 + k) as nat, id_count() as nat);
    vstd::arithmetic::div_mod::lemma_small_mod((1 + j) as nat, id_count() as nat);
}

/// Two identifiers name the same device exactly if they are the same number, and so do the
/// devices that hold them.
pub proof fn law_same_device<M, R, G>(
    a: CudaDevice<M, R, G>,
    b: CudaDevice<M, R, G>,
    x: DeviceId,
    y: DeviceId,
    same_ids: bool,
    same: bool,
)
    requires
        call_ensures(CudaDevice::<M, R, G>::id, (&a,), x),
        call_ensures(CudaDevice::<M, R, G>::id, (&b,), y),
        call_ensures(DeviceId::same_device, (x, y), same_ids),
        call_ensures(CudaDevice::<M, R, G>::same_device, (&a, &b), same),
    ensures
        x.0 == a.id.0,
        same_ids <==> x.0 == y.0,
        same <==> same_ids,
{
}

/// A new device draws its identity, and holds the generator that was handed in, which was
/// made with the default seed; nothing is loaded and nothing is recorded.
pub proof fn law_new_device<M, R, G>(
    ids: &mut DeviceIds,
    rng: R,
    module_count: usize,
    device: CudaDevice<M, R, G>,
    seed: u64,
    i: int,
)
    requires
        call_ensures(CudaDevice::<M, R, G>::new, (ids, rng, module_count), device),
        call_ensures(CudaDevice::<M, R, G>::get_current_seed, (&device,), seed),
        0 <= i < module_count,
    ensures
        device.id.0 == old(ids).next,
        old(ids).next < usize::MAX ==> final(ids).next == old(ids).next + 1,
        old(ids).next == usize::MAX ==> final(ids).next == 0,
        device.rng.rng == rng,
        seed == 299792458,
        device.modules.mdls@.len() == module_count,
        device.modules.mdls@[i] is None,
        device.custom_modules@ == Map::<Seq<char>, M>::empty(),
        device.graph_cache@ == Map::<u64, G>::empty(),
{
    let next = old(ids).next;
    if next == usize::MAX {
        vstd::arithmetic::div_mod::lemma_mod_self_0(id_count());
    } else {
        vstd::arithmetic::div_mod::lemma_small_mod((next + 1) as nat, id_count() as nat);
    }
}

/// Setting a seed puts the generator that was made with it in place and is what the seed is
/// read as afterwards; a failure to make one leaves the device as it is. Nothing else of the
/// device changes.
pub proof fn law_seed_is_read_back<M, R, G, E>(
    device: &mut CudaDevice<M, R, G>,
    seed: u64,
    made: Result<R, E>,
    r: Result<(), E>,
    read: u64,
)
    requires
        call_ensures(CudaDevice::<M, R, G>::set_seed::<E>, (device, seed, made), r),
        call_ensures(CudaDevice::<M, R, G>::get_current_seed, (final(device),), read),
    ensures
        made matches Ok(rng) ==> r is Ok && final(device).rng.rng == rng && read == seed,
        made matches Err(e) ==> r == Err::<(), E>(e) && *final(device) == *old(device),
        final(device).id == old(device).id,
        final(device).modules == old(device).modules,
        final(device).custom_modules == old(device).custom_modules,
        final(device).graph_cache == old(device).graph_cache,
{
}

/// The device looks a kernel up at once exactly if its module is loaded, and starts a step
/// by a replay exactly if a graph is recorded for the key.
pub proof fn law_device_follows_what_it_holds<M, R, G, E>(
    device: CudaDevice<M, R, G>,
    index: usize,
    name: &str,
    key: u64,
    of_index: KernelStep,
    of_name: KernelStep,
    run: GraphRun<G, E>,
)
    requires
        call_ensures(CudaDevice::<M, R, G>::get_or_load_func, (&device, index), of_index),
        call_ensures(CudaDevice::<M, R, G>::get_or_load_custom_func, (&device, name), of_name),
        call_ensures(CudaDevice::<M, R, G>::with_cuda_graph::<E>, (&device, key), run),
        index < device.modules.mdls@.len(),
    ensures
        device.modules.mdls@[index as int] is Some ==> of_index == KernelStep::LoadFunction,
        device.modules.mdls@[index as int] is None ==> of_index == KernelStep::LoadModule,
        device.custom_modules@.contains_key(name@) ==> of_name == KernelStep::LoadFunction,
        !device.custom_modules@.contains_key(name@) ==> of_name == KernelStep::LoadModule,
        device.graph_cache@.contains_key(key) ==> run is Replaying,
        !device.graph_cache@.contains_key(key) ==> run is Beginning,
{
}

/// Invalidating a key forgets its graph and no other, and clearing the cache forgets all;
/// nothing else of the device changes.
pub proof fn law_invalidated_graphs<M, R, G>(
    one: &mut CudaDevice<M, R, G>,
    all: &mut CudaDevice<M, R, G>,
    key: u64,
    other: u64,
)
    requires
        call_ensures(CudaDevice::<M, R, G>::invalidate_cuda_graph, (one, key), ()),
        call_ensures(CudaDevice::<M, R, G>::clear_cuda_graph_cache, (all,), ()),
        other != key,
    ensures
        !final(one).graph_cache@.contains_key(key),
        final(one).graph_cache@.contains_key(other) == old(one).graph_cache@.contains_key(other),
        old(one).graph_cache@.contains_key(other) ==> final(one).graph_cache@[other]
            == old(one).graph_cache@[other],
        final(one).id == old(one).id,
        final(one).rng == old(one).rng,
        final(one).modules == old(one).modules,
        final(one).custom_modules == old(one).custom_modules,
        !final(all).graph_cache@.contains_key(key),
        final(all).id == old(all).id,
        final(all).rng == old(all).rng,
        final(all).modules == old(all).modules,
        final(all).custom_modules == old(all).custom_modules,
{
}

/// Memory is allocated in the order of the stream exactly if the device can do so, and
/// either way for as many elements as asked for.
pub proof fn law_allocation_path<M, R, G>(
    device: CudaDevice<M, R, G>,
    len: usize,
    has_async_alloc: bool,
    path: AllocPath,
)
    requires
        call_ensures(CudaDevice::<M, R, G>::alloc_async, (&device, len, has_async_alloc), path),
    ensures
        has_async_alloc ==> (path matches AllocPath::StreamOrdered { len: n } && n == len),
        !has_async_alloc ==> (path matches AllocPath::Synchronous { len: n } && n == len),
{
}

/// New tensors take memory of the device for each of their elements, zeroed or not as asked
/// for, unless their type is a placeholder.
pub proof fn law_new_tensors<M, R, G>(
    device: CudaDevice<M, R, G>,
    dims: Vec<usize>,
    dtype: DType,
    count: usize,
    zeros: Result<AllocPlan, CudaError>,
    uninit: Result<AllocPlan, CudaError>,
)
    requires
        call_ensures(dims_count, (&dims,), count),
        call_ensures(CudaDevice::<M, R, G>::zeros_impl, (&device, &dims, dtype), zeros),
        call_ensures(CudaDevice::<M, R, G>::alloc_uninit, (&device, &dims, dtype), uninit),
    ensures
        if dtype == DType::F6E2M3 || dtype == DType::F6E3M2 || dtype == DType::F4 || dtype
            == DType::F8E8M0 {
            &&& zeros matches Err(CudaError::InternalError(text)) && text@
                == "Dummy types not supported in CUDA backend"@
            &&& uninit matches Err(CudaError::InternalError(text)) && text@
                == "Dummy types not supported in CUDA backend"@
        } else {
            &&& zeros matches Ok(plan) && plan.device == device.id && plan.dtype == dtype
                && plan.len == count && plan.fill == Fill::Zeros
            &&& uninit matches Ok(plan) && plan.device == device.id && plan.dtype == dtype
                && plan.len == count && plan.fill == Fill::Unset
        },
{
}

/// Uploads take memory of the device for each element, of the type of the elements, unless
/// that is a placeholder; a storage that is given up is handed back as it was.
pub proof fn law_uploads<M, R, G, P: Precision>(
    device: CudaDevice<M, R, G>,
    storage: CpuStorage<P>,
    dtype: DType,
    len: usize,
    of_slice: Result<AllocPlan, CudaError>,
    of_storage: Result<AllocPlan, CudaError>,
    of_owned: Result<(AllocPlan, CpuStorage<P>), CudaError>,
)
    requires
        call_ensures(CpuStorage::<P>::dtype, (&storage,), dtype),
        call_ensures(CpuStorage::<P>::len, (&storage,), len),
        call_ensures(CudaDevice::<M, R, G>::storage_from_slice, (&device, dtype, len), of_slice),
        call_ensures(
            CudaDevice::<M, R, G>::storage_from_cpu_storage::<P>,
            (&device, &storage),
            of_storage,
        ),
        call_ensures(
            CudaDevice::<M, R, G>::storage_from_cpu_storage_owned::<P>,
            (&device, storage),
            of_owned,
        ),
    ensures
        if dtype == DType::F6E2M3 || dtype == DType::F6E3M2 || dtype == DType::F4 || dtype
            == DType::F8E8M0 {
            &&& of_slice matches Err(CudaError::UnsupportedDtype { dtype: t, op }) && t == dtype
                && op@ == "storage_from_slice"@
            &&& of_storage matches Err(CudaError::UnsupportedDtype { dtype: t, op }) && t == dtype
                && op@ == "storage_from_cpu_storage"@
            &&& of_owned matches Err(CudaError::UnsupportedDtype { dtype: t, op }) && t == dtype
                && op@ == "storage_from_cpu_storage_owned"@
        } else {
            &&& of_slice matches Ok(plan) && plan.device == device.id && plan.dtype == dtype
                && plan.len == len && plan.fill == Fill::Upload
            &&& of_storage matches Ok(plan) && plan.device == device.id && plan.dtype == dtype
                && plan.len == len && plan.fill == Fill::Upload
            &&& of_owned matches Ok((plan, back)) && back == storage && plan.device == device.id
                && plan.dtype == dtype && plan.len == len && plan.fill == Fill::Upload
        },
{
    storage.lemma_len_fits();
}

/// Random tensors are of single or double precision and of no other type. Evenly spread
/// numbers take memory for each element, and are scaled unless they range from a zero of
/// either sign up to one.
pub proof fn law_uniform_numbers<M, R, G>(
    device: CudaDevice<M, R, G>,
    dims: Vec<usize>,
    dtype: DType,
    lo: u64,
    up: u64,
    count: usize,
    r: Result<UniformPlan, CudaError>,
)
    requires
        call_ensures(dims_count, (&dims,), count),
        call_ensures(CudaDevice::<M, R, G>::rand_uniform, (&device, &dims, dtype, lo, up), r),
    ensures
        if dtype == DType::F32 || dtype == DType::F64 {
            r matches Ok(plan) && {
                &&& plan.alloc.device == device.id
                &&& plan.alloc.dtype == dtype
                &&& plan.alloc.len == count
                &&& plan.alloc.fill == Fill::Unset
                &&& plan.lo == lo
                &&& plan.up == up
                &&& !plan.affine <==> up == 0x3ff0_0000_0000_0000u64 && (lo == 0 || lo
                    == 0x8000_0000_0000_0000u64)
            }
        } else {
            r matches Err(CudaError::UnsupportedDtype { dtype: t, op }) && t == dtype && op@
                == "rand_uniform"@
        },
{
}

/// Normally distributed numbers take memory for each element, and for one more where their
/// number is odd; the type is single or double precision and no other.
pub proof fn law_normal_numbers<M, R, G>(
    device: CudaDevice<M, R, G>,
    dims: Vec<usize>,
    dtype: DType,
    mean: u64,
    std: u64,
    count: usize,
    r: Result<NormalPlan, CudaError>,
)
    requires
        call_ensures(dims_count, (&dims,), count),
        count < usize::MAX,
        call_ensures(CudaDevice::<M, R, G>::rand_normal, (&device, &dims, dtype, mean, std), r),
    ensures
        if dtype == DType::F32 || dtype == DType::F64 {
            r matches Ok(plan) && {
                &&& plan.alloc.device == device.id
                &&& plan.alloc.dtype == dtype
                &&& plan.alloc.len % 2 == 0
                &&& count <= plan.alloc.len <= count + 1
                &&& plan.alloc.fill == Fill::Unset
                &&& plan.mean == mean
                &&& plan.std == std
            }
        } else {
            r matches Err(CudaError::UnsupportedDtype { dtype: t, op }) && t == dtype && op@
                == "rand_normal"@
        },
{
}

/// A generator that is handed in starts with the default seed, and the seed that is read is
/// that of the last generator that was put in place.
pub proof fn law_generator_and_seed<R, E>(
    first: R,
    new: SeededRng<R>,
    rng: &mut SeededRng<R>,
    seed: u64,
    made: Result<R, E>,
    r: Result<(), E>,
    read: u64,
)
    requires
        call_ensures(SeededRng::<R>::new, (first,), new),
        call_ensures(SeededRng::<R>::set_seed::<E>, (rng, seed, made), r),
        call_ensures(SeededRng::<R>::get_current_seed, (final(rng),), read),
    ensures
        new.rng == first,
        new.seed == 299792458,
        made matches Ok(next) ==> r is Ok && final(rng).rng == next && read == seed,
        made matches Err(e) ==> {
            &&& r == Err::<(), E>(e)
            &&& final(rng).rng == old(rng).rng
            &&& read == old(rng).seed
        },
{
}

} // verus!
