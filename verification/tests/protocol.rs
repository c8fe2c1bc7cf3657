use llama_mesh::protocol::GpuType;

#[test]
fn gpu_type_display() {
    assert_eq!(GpuType::Cuda.to_string(), "cuda");
    assert_eq!(GpuType::Rocm.to_string(), "rocm");
    assert_eq!(GpuType::Cpu.to_string(), "cpu");
}
