//! The control messages between coordinator and workers.
use vstd::prelude::*;

verus! {

/// The kind of accelerator that a worker offers.
#[derive(Debug, Clone, Copy, PartialEq, Eq, Structural)]
pub enum GpuType {
    Cuda,
    Rocm,
    Cpu,
}

impl GpuType {
    /// The lowercase name of the kind.
    pub open spec fn name(self) -> Seq<char> {
        match self {
            GpuType::Cuda => "cuda"@,
            GpuType::Rocm => "rocm"@,
            GpuType::Cpu => "cpu"@,
        }
    }

    /// The lowercase name of the kind.
    pub fn to_string(&self) -> (res: String)
        ensures
            res@ == self.name(),
    {
        match self {
            GpuType::Cuda => "cuda".to_owned(),
            GpuType::Rocm => "rocm".to_owned(),
            GpuType::Cpu => "cpu".to_owned(),
        }
    }
}

/// Different kinds have different names.
pub proof fn gpu_names_differ(a: GpuType, b: GpuType)
    ensures
        a.name() == b.name() <==> a == b,
{
    reveal_strlit("cuda");
    reveal_strlit("rocm");
    reveal_strlit("cpu");
    assert("cuda"@[0] == 'c' && "rocm"@[0] == 'r' && "cuda"@.len() == 4 && "cpu"@.len() == 3);
}

/// What a worker says of itself when it joins.
#[derive(Debug)]
pub struct WorkerAnnounce {
    pub node_id: String,
    pub gpu: GpuType,
    pub vram_mb: u64,
    pub rpc_port: u16,
    pub preemptible: bool,
}

impl Clone for WorkerAnnounce {
    fn clone(&self) -> (res: Self)
        ensures
            res == *self,
    {
        WorkerAnnounce {
            node_id: self.node_id.clone(),
            gpu: self.gpu,
            vram_mb: self.vram_mb,
            rpc_port: self.rpc_port,
            preemptible: self.preemptible,
        }
    }
}

/// Messages sent from worker to coordinator over WebSocket.
#[derive(Debug, Clone)]
pub enum WorkerMsg {
    Announce(WorkerAnnounce),
    Draining { reason: String },
    Resuming,
    TunnelClose { stream_id: u32 },
}

/// Messages sent from coordinator to worker over WebSocket.
#[derive(Debug, Clone)]
pub enum CoordinatorMsg {
    Ack { node_id: String },
    TopologyUpdate { active_workers: usize },
    TunnelOpen { stream_id: u32 },
    TunnelClose { stream_id: u32 },
}

/// What the next read of a WebSocket brings to its owner, who expects control
/// messages of type `M`.
pub enum Incoming<M> {
    /// A text message that holds a control message.
    Control(M),
    /// A text message that holds none.
    BadText,
    /// A binary message.
    Binary(Vec<u8>),
    /// A ping with its payload.
    Ping(Vec<u8>),
    /// Any other message.
    Other,
    /// A close message.
    Close,
    /// The end of the connection.
    Ended,
    /// An error of the connection.
    Failed,
}

} // verus!
