//! What may be called with anything at all.
use crate::child_worker::start_rpc_server;
use crate::child_worker::Args as ChildArgs;
use crate::coord::generate_swap_config;
use crate::coord::Config;
use crate::ffi::enumerate_devices;
use crate::ffi::gpu_indices;
use crate::ffi::rpc_threads;
use crate::ffi::total_gpu_vram_mb;
use crate::ffi::DeviceInfo;
use crate::ffi::RawDevice;
use crate::protocol::GpuType;
use crate::reload::begin_reload;
use crate::rpc_server::run;
use crate::rpc_server::Args as RpcArgs;
use crate::table::Table;
use crate::text::join;
use crate::text::to_decimal;
use crate::text::trim;
use crate::topology::local_endpoint;
use crate::topology::plan_topology;
use crate::topology::ConnectedWorker;
use crate::topology::TopologyPlan;
use crate::tunnel::decode_frame;
use crate::tunnel::encode_frame;
use crate::tunnel::tcp_to_ws;
use crate::tunnel::ws_to_tcp;
use crate::tunnel::TcpEvent;
use crate::tunnel::WsEvent;
use crate::worker::any_trigger_running;
use crate::worker::get_hostname;
use crate::worker::identify;
use crate::worker::is_process_running;
use crate::worker::parse_gpu;
use crate::worker::wait_for_preempt_clear;
use crate::worker::watch_triggers;
use crate::worker::ProcEntry;
use vstd::prelude::*;

verus! {

/// Every text and number can be written, joined and trimmed.
pub proof fn text_is_total(n: u64, parts: &Vec<String>, sep: &str)
    ensures
        call_requires(to_decimal, (n,)),
        call_requires(join, (parts, sep)),
        call_requires(trim, (sep,)),
{
}

/// Every message can be framed and decoded, and every event can happen to a stream.
pub proof fn tunnel_is_total(stream_id: u32, data: &[u8], tcp: TcpEvent, ws: WsEvent)
    ensures
        call_requires(encode_frame, (stream_id, data)),
        call_requires(decode_frame, (data,)),
        call_requires(tcp_to_ws, (stream_id, tcp)),
        call_requires(ws_to_tcp, (ws,)),
{
}

/// Every machine has a list of devices, whatever they are.
pub proof fn devices_are_total(
    raw: Vec<RawDevice>,
    devices: &Vec<DeviceInfo>,
    available: Option<usize>,
    args: RpcArgs,
)
    ensures
        call_requires(enumerate_devices, (raw,)),
        call_requires(gpu_indices, (devices,)),
        call_requires(total_gpu_vram_mb, (devices,)),
        call_requires(rpc_threads, (available,)),
        call_requires(run, (args, devices)),
{
}

/// Every set of workers has a plan, and every plan a configuration.
pub proof fn planning_is_total(
    port: u16,
    local_vram_mb: u64,
    table: &Table<ConnectedWorker>,
    config: &Config,
    plan: &TopologyPlan,
)
    ensures
        call_requires(local_endpoint, (port,)),
        call_requires(plan_topology, (local_vram_mb, table)),
        call_requires(generate_swap_config, (config, plan)),
        call_requires(begin_reload, (config, plan)),
{
}

/// Every worker can be told who it is, and look for every trigger.
pub proof fn workers_are_total(
    gpu: &str,
    node_id: Option<String>,
    hostname_file: Option<String>,
    triggers: &Vec<String>,
    processes: &Vec<ProcEntry>,
    args: &ChildArgs,
    kind: GpuType,
)
    ensures
        call_requires(parse_gpu, (gpu,)),
        call_requires(get_hostname, (hostname_file,)),
        call_requires(identify, (gpu, node_id, hostname_file)),
        call_requires(is_process_running, (processes, gpu)),
        call_requires(any_trigger_running, (triggers, processes)),
        call_requires(wait_for_preempt_clear, (triggers, processes)),
        call_requires(watch_triggers, (triggers, processes)),
        call_requires(start_rpc_server, (args, kind)),
{
}

} // verus!
