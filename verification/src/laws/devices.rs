//! The devices of a machine, and what is served of them.
use crate::ffi::enumerate_devices;
use crate::ffi::gpu_indices;
use crate::ffi::gpu_indices_of;
use crate::ffi::gpu_vram_of;
use crate::ffi::rpc_threads;
use crate::ffi::total_gpu_vram_mb;
use crate::ffi::DeviceInfo;
use crate::ffi::RawDevice;
use crate::rpc_server::run;
use crate::rpc_server::Args;
use crate::rpc_server::NoGpuDevices;
use crate::rpc_server::Serving;
use vstd::prelude::*;

verus! {

/// A device is a GPU exactly if the backend gives it the device type one.
pub proof fn gpus_have_device_type_one(device: &DeviceInfo, res: bool)
    requires
        call_ensures(DeviceInfo::is_gpu, (device,), res),
    ensures
        res == (device.dev_type == 1),
{
}

/// Every device that the backend reports is listed, in its place and under its names,
/// with its memory rounded down to units of 2^20 bytes.
pub proof fn all_devices_are_listed(raw: Vec<RawDevice>, devices: Vec<DeviceInfo>)
    requires
        call_ensures(enumerate_devices, (raw,), devices),
    ensures
        devices@.len() == raw@.len(),
        forall|i: int|
            0 <= i < raw@.len() ==> {
                let d = #[trigger] devices@[i];
                let r = raw@[i];
                &&& d.index == i
                &&& d.name == r.name
                &&& d.description == r.description
                &&& d.dev_type == r.dev_type
                &&& d.vram_free_mb * 1048576 <= r.free < (d.vram_free_mb + 1) * 1048576
                &&& d.vram_total_mb * 1048576 <= r.total < (d.vram_total_mb + 1) * 1048576
            },
{
}

/// What the indices of GPUs come to over two lists.
proof fn indices_over_two(a: Seq<DeviceInfo>, b: Seq<DeviceInfo>)
    ensures
        gpu_indices_of(a + b) == gpu_indices_of(a) + gpu_indices_of(b),
{
    Seq::filter_distributes_over_add(a, b, |d: DeviceInfo| d.gpu());
    assert(gpu_indices_of(a + b) =~= gpu_indices_of(a) + gpu_indices_of(b));
}

/// The indices of the GPUs of one device.
proof fn indices_of_one(d: DeviceInfo)
    ensures
        gpu_indices_of(seq![d]) == if d.dev_type == 1 {
            seq![d.index]
        } else {
            Seq::empty()
        },
        gpu_indices_of(Seq::empty()) == Seq::<usize>::empty(),
{
    reveal_with_fuel(Seq::filter, 2);
    assert(seq![d].drop_last() =~= Seq::empty());
    assert(gpu_indices_of(Seq::empty()) =~= Seq::<usize>::empty());
    assert(gpu_indices_of(seq![d]) =~= if d.dev_type == 1 {
        seq![d.index]
    } else {
        Seq::empty()
    });
}

/// A GPU behind any devices adds its index behind theirs; another device adds nothing.
pub proof fn another_gpu_adds_its_index(
    before: &Vec<DeviceInfo>,
    after: &Vec<DeviceInfo>,
    device: DeviceInfo,
    indices_before: Vec<usize>,
    indices_after: Vec<usize>,
)
    requires
        call_ensures(gpu_indices, (before,), indices_before),
        call_ensures(gpu_indices, (after,), indices_after),
        after@ == before@.push(device),
    ensures
        indices_after@ == if device.dev_type == 1 {
            indices_before@.push(device.index)
        } else {
            indices_before@
        },
{
    assert(after@ =~= before@ + seq![device]);
    indices_over_two(before@, seq![device]);
    indices_of_one(device);
    assert(indices_before@ + seq![device.index] =~= indices_before@.push(device.index));
    assert(indices_before@ + Seq::<usize>::empty() =~= indices_before@);
}

/// Without devices there are no indices; and there are none exactly if no device is a
/// GPU.
pub proof fn no_gpus_no_indices(devices: &Vec<DeviceInfo>, indices: Vec<usize>)
    requires
        call_ensures(gpu_indices, (devices,), indices),
    ensures
        indices@.len() == 0 <==> forall|i: int|
            0 <= i < devices@.len() ==> (#[trigger] devices@[i]).dev_type != 1,
{
    none_selected(devices@);
}

/// Nothing is selected exactly if there is no GPU.
pub proof fn none_selected(devices: Seq<DeviceInfo>)
    ensures
        gpu_indices_of(devices).len() == 0 <==> forall|i: int|
            0 <= i < devices.len() ==> (#[trigger] devices[i]).dev_type != 1,
    decreases devices.len(),
{
    if devices.len() == 0 {
        indices_of_one(arbitrary());
        assert(devices =~= Seq::empty());
    } else {
        let front = devices.drop_last();
        none_selected(front);
        assert(devices =~= front + seq![devices.last()]);
        indices_over_two(front, seq![devices.last()]);
        indices_of_one(devices.last());
        assert(devices[devices.len() - 1] == devices.last());
        if gpu_indices_of(devices).len() == 0 {
            assert forall|i: int| 0 <= i < devices.len() implies (
            #[trigger] devices[i]).dev_type != 1 by {
                if i < front.len() {
                    assert(front[i] == devices[i]);
                }
            }
        } else if forall|i: int| 0 <= i < devices.len() ==> (#[trigger] devices[i]).dev_type != 1 {
            assert forall|i: int| 0 <= i < front.len() implies (
            #[trigger] front[i]).dev_type != 1 by {
                assert(front[i] == devices[i]);
            }
        }
    }
}

/// The sum of the memory of all GPUs at positions from `from` to the end.
pub open spec fn memory_from(devices: Seq<DeviceInfo>, from: int) -> int
    decreases devices.len() - from,
{
    if from < 0 || from >= devices.len() {
        0
    } else {
        (if devices[from].dev_type == 1 {
            devices[from].vram_total_mb as int
        } else {
            0
        }) + memory_from(devices, from + 1)
    }
}

/// One more device at the end adds to the memory from any position on.
proof fn memory_from_grows(devices: Seq<DeviceInfo>, device: DeviceInfo, from: int)
    requires
        0 <= from <= devices.len(),
    ensures
        memory_from(devices.push(device), from) == memory_from(devices, from) + if device.dev_type
            == 1 {
            device.vram_total_mb as int
        } else {
            0
        },
    decreases devices.len() - from,
{
    if from < devices.len() {
        memory_from_grows(devices, device, from + 1);
    } else {
        assert(memory_from(devices.push(device), from + 1) == 0);
    }
}

/// The memory of the GPUs is the sum over all positions.
pub proof fn memory_is_the_sum(devices: Seq<DeviceInfo>)
    ensures
        gpu_vram_of(devices) == memory_from(devices, 0),
    decreases devices.len(),
{
    if devices.len() > 0 {
        memory_is_the_sum(devices.drop_last());
        memory_from_grows(devices.drop_last(), devices.last(), 0);
        assert(devices.drop_last().push(devices.last()) =~= devices);
    }
}

/// The total is the sum, over all positions of a GPU, of the memory there, whatever its
/// neighbours hold. It is missing exactly where it is beyond 64 bits.
pub proof fn total_is_the_sum_over_all_gpus(devices: &Vec<DeviceInfo>, total: Option<u64>)
    requires
        call_ensures(total_gpu_vram_mb, (devices,), total),
    ensures
        match total {
            Some(sum) => sum == memory_from(devices@, 0),
            None => memory_from(devices@, 0) > u64::MAX,
        },
{
    memory_is_the_sum(devices@);
}

/// Another GPU raises the total by exactly its memory, and any other device leaves it.
pub proof fn another_gpu_adds_its_memory(
    before: &Vec<DeviceInfo>,
    after: &Vec<DeviceInfo>,
    device: DeviceInfo,
    total_before: Option<u64>,
    total_after: Option<u64>,
)
    requires
        call_ensures(total_gpu_vram_mb, (before,), total_before),
        call_ensures(total_gpu_vram_mb, (after,), total_after),
        after@ == before@.push(device),
    ensures
        match total_before {
            Some(sum) => if device.dev_type != 1 {
                total_after == Some(sum)
            } else if sum + device.vram_total_mb <= u64::MAX {
                total_after == Some((sum + device.vram_total_mb) as u64)
            } else {
                total_after is None
            },
            None => total_after is None,
        },
{
    total_is_the_sum_over_all_gpus(before, total_before);
    total_is_the_sum_over_all_gpus(after, total_after);
    memory_from_grows(before@, device, 0);
}

/// The RPC server takes as many threads as the machine offers, or four.
pub proof fn threads_follow_the_machine(available: Option<usize>, res: usize)
    requires
        call_ensures(rpc_threads, (available,), res),
    ensures
        available matches Some(n) ==> res == n,
        available is None ==> res == 4,
{
}

/// The subcommand serves all GPUs, on the endpoint that was asked for, and fails exactly
/// if there is none.
pub proof fn subcommand_serves_all_gpus(
    args: Args,
    devices: &Vec<DeviceInfo>,
    indices: Vec<usize>,
    res: Result<Serving, NoGpuDevices>,
)
    requires
        call_ensures(run, (args, devices), res),
        call_ensures(gpu_indices, (devices,), indices),
    ensures
        res is Err <==> forall|i: int|
            0 <= i < devices@.len() ==> (#[trigger] devices@[i]).dev_type != 1,
        res matches Ok(serving) ==> serving.endpoint@ == args.endpoint@
            && serving.device_indices@ == indices@,
{
    none_selected(devices@);
}

/// What is said where there is nothing to serve.
pub proof fn no_gpus_is_said(error: &NoGpuDevices, res: String)
    requires
        call_ensures(NoGpuDevices::message, (error,), res),
    ensures
        res@ == "no GPU devices found"@,
{
}

} // verus!
