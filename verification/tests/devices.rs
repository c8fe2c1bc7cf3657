use llama_mesh::ffi::{
    enumerate_devices, gpu_indices, rpc_threads, total_gpu_vram_mb, DeviceInfo, RawDevice,
    GGML_BACKEND_DEVICE_TYPE_CPU, GGML_BACKEND_DEVICE_TYPE_GPU,
};
use llama_mesh::rpc_server::{run, Args};

fn raw(name: &str, dev_type: i32, free: usize, total: usize) -> RawDevice {
    RawDevice {
        name: name.to_string(),
        description: format!("the {name}"),
        dev_type,
        free,
        total,
    }
}

fn machine() -> Vec<DeviceInfo> {
    let gb = 1024 * 1024 * 1024;
    enumerate_devices(vec![
        raw("CPU", GGML_BACKEND_DEVICE_TYPE_CPU, gb, 64 * gb),
        raw("CUDA0", GGML_BACKEND_DEVICE_TYPE_GPU, 7 * gb, 8 * gb),
        raw("ACCEL", 2, gb, gb),
        raw("CUDA1", GGML_BACKEND_DEVICE_TYPE_GPU, 1048575, 24 * gb),
    ])
}

fn device(index: usize, dev_type: i32, vram_total_mb: u64) -> DeviceInfo {
    DeviceInfo {
        index,
        name: "d".to_string(),
        description: "d".to_string(),
        dev_type,
        vram_free_mb: 0,
        vram_total_mb,
    }
}

#[test]
fn devices_are_numbered_and_measured() {
    let devices = machine();
    assert_eq!(devices.len(), 4);
    for i in 0..4 {
        assert_eq!(devices[i].index, i);
    }
    assert_eq!(devices[1].name, "CUDA0");
    assert_eq!(devices[1].description, "the CUDA0");
    assert_eq!(devices[1].vram_free_mb, 7168);
    assert_eq!(devices[1].vram_total_mb, 8192);
    assert_eq!(devices[3].vram_free_mb, 0);
    assert!(devices[1].is_gpu() && devices[3].is_gpu());
    assert!(!devices[0].is_gpu() && !devices[2].is_gpu());
}

#[test]
fn gpus_are_selected_in_order() {
    let devices = machine();
    assert_eq!(gpu_indices(&devices), vec![1, 3]);
    for i in gpu_indices(&devices) {
        assert!(devices[i].is_gpu());
        assert_eq!(devices[i].index, i);
    }
    assert_eq!(total_gpu_vram_mb(&devices), Some(8192 + 24576));
}

#[test]
fn memory_that_does_not_add_up() {
    let devices = vec![device(0, 1, u64::MAX), device(1, 0, 1)];
    assert_eq!(total_gpu_vram_mb(&devices), Some(u64::MAX));
    let devices = vec![device(0, 1, u64::MAX), device(1, 1, 1)];
    assert_eq!(total_gpu_vram_mb(&devices), None);
}

#[test]
fn rpc_server_threads() {
    assert_eq!(rpc_threads(Some(16)), 16);
    assert_eq!(rpc_threads(None), 4);
}

#[test]
fn rpc_server_serves_all_gpus() {
    let args = Args { endpoint: "0.0.0.0:50052".to_string() };
    let serving = run(args, &machine()).unwrap();
    assert_eq!(serving.endpoint, "0.0.0.0:50052");
    assert_eq!(serving.device_indices, vec![1, 3]);
}

#[test]
fn rpc_server_needs_a_gpu() {
    let args = Args { endpoint: "0.0.0.0:50052".to_string() };
    match run(args, &vec![device(0, 0, 64)]) {
        Err(e) => assert_eq!(e.message(), "no GPU devices found"),
        Ok(_) => panic!("there is no GPU"),
    }
}
