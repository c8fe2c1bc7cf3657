//! The subcommand that serves the local GPUs over RPC and does nothing else.
use crate::ffi::gpu_indices;
use crate::ffi::gpu_indices_of;
use crate::ffi::DeviceInfo;
use vstd::prelude::*;

verus! {

/// Arguments of the subcommand.
pub struct Args {
    /// RPC server endpoint (host:port)
    pub endpoint: String,
}

/// What the RPC server is to be started with.
pub struct Serving {
    pub endpoint: String,
    pub device_indices: Vec<usize>,
}

/// The machine has no GPU, so there is nothing to serve.
#[derive(Debug)]
pub struct NoGpuDevices;

impl NoGpuDevices {
    /// The message for the user.
    pub fn message(&self) -> (res: String)
        ensures
            res@ == "no GPU devices found"@,
    {
        "no GPU devices found".to_owned()
    }
}

/// Decides what to serve on a machine with the given devices: all GPUs, on the
/// endpoint of the arguments.
pub fn run(args: Args, devices: &Vec<DeviceInfo>) -> (res: Result<Serving, NoGpuDevices>)
    ensures
        res is Err <==> gpu_indices_of(devices@).len() == 0,
        match res {
            Ok(serving) => serving.endpoint == args.endpoint && serving.device_indices@
                == gpu_indices_of(devices@),
            Err(_) => true,
        },
{
    let device_indices = gpu_indices(devices);
    if device_indices.len() == 0 {
        return Err(NoGpuDevices);
    }
    Ok(Serving { endpoint: args.endpoint, device_indices })
}

} // verus!
