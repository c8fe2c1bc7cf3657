//! Devices of the ggml backend: which of them are GPUs, and what they hold.
use vstd::prelude::*;

verus! {

/// Device type of a CPU in `enum ggml_backend_dev_type`.
pub const GGML_BACKEND_DEVICE_TYPE_CPU: i32 = 0;

/// Device type of a GPU in `enum ggml_backend_dev_type`.
pub const GGML_BACKEND_DEVICE_TYPE_GPU: i32 = 1;

/// Bytes in a megabyte.
pub const MEGABYTE: usize = 1048576;

/// Threads of the RPC server where the machine does not tell its parallelism.
pub const DEFAULT_RPC_THREADS: usize = 4;

/// What the backend reports of one device.
pub struct RawDevice {
    pub name: String,
    pub description: String,
    pub dev_type: i32,
    /// Free memory in bytes.
    pub free: usize,
    /// Total memory in bytes.
    pub total: usize,
}

/// A device of the backend, with its memory in whole megabytes.
pub struct DeviceInfo {
    pub index: usize,
    pub name: String,
    pub description: String,
    pub dev_type: i32,
    pub vram_free_mb: u64,
    pub vram_total_mb: u64,
}

impl DeviceInfo {
    /// Whether the backend calls this device a GPU.
    pub open spec fn gpu(self) -> bool {
        self.dev_type == GGML_BACKEND_DEVICE_TYPE_GPU
    }

    /// Whether the backend calls this device a GPU.
    pub fn is_gpu(&self) -> (res: bool)
        ensures
            res == self.gpu(),
    {
        self.dev_type == GGML_BACKEND_DEVICE_TYPE_GPU
    }
}

/// `device` is the device that the backend reports as `raw` at position `i`.
pub open spec fn describes(device: DeviceInfo, i: int, raw: RawDevice) -> bool {
    &&& device.index == i
    &&& device.name == raw.name
    &&& device.description == raw.description
    &&& device.dev_type == raw.dev_type
    &&& device.vram_free_mb == raw.free / MEGABYTE
    &&& device.vram_total_mb == raw.total / MEGABYTE
}

/// `devices` are the devices that the backend reports as `raw`, in its order.
pub open spec fn describe_all(devices: Seq<DeviceInfo>, raw: Seq<RawDevice>) -> bool {
    &&& devices.len() == raw.len()
    &&& forall|i: int| 0 <= i < raw.len() ==> describes(#[trigger] devices[i], i, raw[i])
}

/// The indices of the GPUs among `devices`, in order.
pub open spec fn gpu_indices_of(devices: Seq<DeviceInfo>) -> Seq<usize> {
    devices.filter(|d: DeviceInfo| d.gpu()).map_values(|d: DeviceInfo| d.index)
}

/// The memory of all GPUs among `devices`, in megabytes.
pub open spec fn gpu_vram_of(devices: Seq<DeviceInfo>) -> nat
    decreases devices.len(),
{
    if devices.len() == 0 {
        0
    } else {
        let rest = gpu_vram_of(devices.drop_last());
        if devices.last().gpu() {
            rest + devices.last().vram_total_mb as nat
        } else {
            rest
        }
    }
}

/// Enumerate all ggml backend devices.
pub fn enumerate_devices(raw: Vec<RawDevice>) -> (devices: Vec<DeviceInfo>)
    ensures
        describe_all(devices@, raw@),
{
    let mut devices: Vec<DeviceInfo> = Vec::new();
    let mut i: usize = 0;
    while i < raw.len()
        invariant
            i <= raw.len(),
            devices@.len() == i,
            forall|j: int| 0 <= j < i ==> describes(#[trigger] devices@[j], j, raw@[j]),
        decreases raw.len() - i,
    {
        let device = &raw[i];
        devices.push(
            DeviceInfo {
                index: i,
                name: device.name.clone(),
                description: device.description.clone(),
                dev_type: device.dev_type,
                vram_free_mb: (device.free / MEGABYTE) as u64,
                vram_total_mb: (device.total / MEGABYTE) as u64,
            },
        );
        i += 1;
    }
    devices
}

/// Lists the indices of the GPUs among `devices`, in order.
pub fn gpu_indices(devices: &Vec<DeviceInfo>) -> (res: Vec<usize>)
    ensures
        res@ == gpu_indices_of(devices@),
{
    let mut res: Vec<usize> = Vec::new();
    let mut i: usize = 0;
    while i < devices.len()
        invariant
            i <= devices.len(),
            res@ == gpu_indices_of(devices@.take(i as int)),
        decreases devices.len() - i,
    {
        proof {
            reveal(Seq::filter);
            assert(devices@.take(i + 1).drop_last() == devices@.take(i as int));
        }
        if devices[i].is_gpu() {
            res.push(devices[i].index);
        }
        i += 1;
    }
    proof {
        assert(devices@.take(i as int) == devices@);
    }
    res
}

/// Adds up the memory of the GPUs among `devices`, in megabytes. There is no
/// result where the sum does not fit.
pub fn total_gpu_vram_mb(devices: &Vec<DeviceInfo>) -> (res: Option<u64>)
    ensures
        match res {
            Some(total) => total == gpu_vram_of(devices@),
            None => gpu_vram_of(devices@) > u64::MAX,
        },
{
    let mut total: u64 = 0;
    let mut i: usize = 0;
    while i < devices.len()
        invariant
            i <= devices.len(),
            total == gpu_vram_of(devices@.take(i as int)),
        decreases devices.len() - i,
    {
        proof {
            assert(devices@.take(i + 1).drop_last() == devices@.take(i as int));
            vram_grows(devices@, i + 1);
        }
        if devices[i].is_gpu() {
            match total.checked_add(devices[i].vram_total_mb) {
                Some(sum) => {
                    total = sum;
                },
                None => {
                    return None;
                },
            }
        }
        i += 1;
    }
    proof {
        assert(devices@.take(i as int) == devices@);
    }
    Some(total)
}

/// The first devices hold no more memory than all of them.
proof fn vram_grows(devices: Seq<DeviceInfo>, n: int)
    requires
        0 <= n <= devices.len(),
    ensures
        gpu_vram_of(devices.take(n)) <= gpu_vram_of(devices),
    decreases devices.len(),
{
    if n == devices.len() {
        assert(devices.take(n) == devices);
    } else {
        vram_grows(devices.drop_last(), n);
        assert(devices.drop_last().take(n) == devices.take(n));
    }
}

/// The number of threads of the RPC server, by what the machine tells of its
/// parallelism.
pub fn rpc_threads(available: Option<usize>) -> (res: usize)
    ensures
        res == (match available {
            Some(n) => n,
            None => DEFAULT_RPC_THREADS,
        }),
{
    match available {
        Some(n) => n,
        None => DEFAULT_RPC_THREADS,
    }
}

/// Every index that is selected from the devices of the backend is the position
/// of a GPU among them, and the GPUs are selected in order.
pub proof fn gpu_indices_are_positions(devices: Seq<DeviceInfo>, raw: Seq<RawDevice>)
    requires
        describe_all(devices, raw),
    ensures
        forall|k: int|
            0 <= k < gpu_indices_of(devices).len() ==> {
                let i = #[trigger] gpu_indices_of(devices)[k];
                i < devices.len() && devices[i as int].index == i && devices[i as int].gpu()
            },
        forall|k: int, l: int|
            0 <= k < l < gpu_indices_of(devices).len() ==> gpu_indices_of(devices)[k]
                < gpu_indices_of(devices)[l],
        forall|i: int|
            0 <= i < devices.len() && (#[trigger] devices[i]).gpu() ==> gpu_indices_of(
                devices,
            ).contains(i as usize),
    decreases devices.len(),
{
    reveal(Seq::filter);
    let all = gpu_indices_of(devices);
    if devices.len() > 0 {
        let front = devices.drop_last();
        gpu_indices_are_positions(front, raw.drop_last());
        let last = devices.last();
        let old_indices = gpu_indices_of(front);
        if last.gpu() {
            assert(all == old_indices.push(last.index));
            assert(all[all.len() - 1] == last.index);
        } else {
            assert(all == old_indices);
        }
        assert forall|i: int| 0 <= i < devices.len() && (#[trigger] devices[i]).gpu() implies all.contains(
            i as usize,
        ) by {
            if i < front.len() {
                assert(front[i].gpu());
                let k = old_indices.index_of(i as usize);
                assert(all[k] == i as usize);
            }
        }
        assert forall|k: int| 0 <= k < all.len() implies ({
            let i = #[trigger] all[k];
            i < devices.len() && devices[i as int].index == i && devices[i as int].gpu()
        }) by {
            if k < old_indices.len() {
                let i = old_indices[k];
                assert(front[i as int] == devices[i as int]);
            } else {
                assert(describes(devices[devices.len() - 1], devices.len() - 1, raw[devices.len() - 1]));
            }
        }
    }
}

} // verus!
