use minerva::metal_gpu::{
    GPUBuffer, GPUMemoryPool, KernelBuffers, KernelConfig, KernelType, MetalDevice, MetalDeviceInfo,
};

#[test]
fn test_metal_device_info_simulated() {
    let info = MetalDeviceInfo::simulated("Test GPU");
    assert_eq!(info.name, "Test GPU");
    assert!(info.is_simulated);
    assert_eq!(info.max_memory_mb, 4096);
}

#[test]
fn test_metal_device_info_real() {
    let info = MetalDeviceInfo::real_device("M1", 8192);
    assert_eq!(info.name, "M1");
    assert!(!info.is_simulated);
    assert_eq!(info.max_memory_mb, 8192);
}

#[test]
fn test_gpu_buffer_creation() {
    let buffer = GPUBuffer::new(0, vec![1u8; 1024]);
    assert_eq!(buffer.size(), 1024);
    assert!(!buffer.is_on_gpu());
}

#[test]
fn test_gpu_buffer_read_write() {
    let buffer = GPUBuffer::new(0, vec![0u8; 100]);
    let data = vec![5u8; 100];
    let mut buf = buffer.duplicate();
    assert!(buf.write(data.clone()).is_ok());
    assert_eq!(buf.read().unwrap(), data);
}

#[test]
fn gpu_buffer_write_of_wrong_size_is_refused() {
    let mut buf = GPUBuffer::new(3, vec![1u8; 4]);
    assert!(buf.write(vec![9u8; 5]).is_err());
    assert_eq!(buf.read().unwrap(), vec![1u8; 4]);
    assert_eq!(buf.id(), 3);
}

#[test]
fn test_gpu_buffer_on_gpu_flag() {
    let buffer = GPUBuffer::new(0, vec![0u8; 100]);
    assert!(!buffer.is_on_gpu());
    let mut buf = buffer.duplicate();
    buf.mark_on_gpu();
    assert!(buf.is_on_gpu());
    buf.mark_on_cpu();
    assert!(!buf.is_on_gpu());
}

#[test]
fn test_kernel_type_names() {
    assert_eq!(KernelType::MatMul.name(), "matmul");
    assert_eq!(KernelType::Attention.name(), "attention");
    assert_eq!(KernelType::LayerNorm.name(), "layer_norm");
    assert_eq!(KernelType::SiLU.name(), "silu");
    assert_eq!(KernelType::Softmax.name(), "softmax");
    assert_eq!(KernelType::ElementMul.name(), "element_mul");
}

#[test]
fn test_kernel_config_default() {
    let config = KernelConfig::default();
    assert_eq!(config.kernel, KernelType::MatMul);
    assert_eq!(config.thread_group_size, 256);
    assert!(config.use_simd);
}

#[test]
fn test_metal_device_simulated() {
    let device = MetalDevice::simulated();
    assert_eq!(device.info().name, "Simulated Metal GPU");
    assert!(device.info().is_simulated);
}

#[test]
fn test_metal_device_allocate_buffer() {
    let mut device = MetalDevice::simulated();
    let id = device.allocate_buffer(1024).unwrap();
    assert_eq!(id, 0);
    let id2 = device.allocate_buffer(2048).unwrap();
    assert_eq!(id2, 1);
}

#[test]
fn test_metal_device_free_buffer() {
    let mut device = MetalDevice::simulated();
    let id = device.allocate_buffer(1024).unwrap();
    assert!(device.free_buffer(id).is_ok());
    assert!(device.free_buffer(id).is_err());
}

#[test]
fn test_metal_device_copy_to_gpu() {
    let mut device = MetalDevice::simulated();
    let id = device.allocate_buffer(100).unwrap();
    let data = vec![5u8; 100];
    assert!(device.copy_to_gpu(id, &data).is_ok());
}

#[test]
fn test_metal_device_copy_from_gpu() {
    let mut device = MetalDevice::simulated();
    let id = device.allocate_buffer(100).unwrap();
    let data = vec![7u8; 100];
    device.copy_to_gpu(id, &data).unwrap();
    let result = device.copy_from_gpu(id).unwrap();
    assert_eq!(result, data);
}

fn kernel(kind: KernelType) -> KernelConfig {
    KernelConfig { kernel: kind, ..Default::default() }
}

#[test]
fn test_metal_device_execute_matmul_kernel() {
    let mut device = MetalDevice::simulated();
    let a = device.allocate_buffer(1024).unwrap();
    let b = device.allocate_buffer(1024).unwrap();
    let c = device.allocate_buffer(1024).unwrap();
    let result = device.check_kernel(kernel(KernelType::MatMul), &KernelBuffers::new(vec![a, b], c)).unwrap();
    assert_eq!(result, c);
}

#[test]
fn test_metal_device_execute_attention_kernel() {
    let mut device = MetalDevice::simulated();
    let q = device.allocate_buffer(512).unwrap();
    let k = device.allocate_buffer(512).unwrap();
    let v = device.allocate_buffer(512).unwrap();
    let out = device.allocate_buffer(512).unwrap();
    let result = device.check_kernel(kernel(KernelType::Attention), &KernelBuffers::new(vec![q, k, v], out));
    assert_eq!(result.unwrap(), out);
}

#[test]
fn test_metal_device_execute_layer_norm_kernel() {
    let mut device = MetalDevice::simulated();
    let x = device.allocate_buffer(256).unwrap();
    let weight = device.allocate_buffer(256).unwrap();
    let out = device.allocate_buffer(256).unwrap();
    let result = device.check_kernel(kernel(KernelType::LayerNorm), &KernelBuffers::new(vec![x, weight], out));
    assert_eq!(result.unwrap(), out);
}

#[test]
fn test_metal_device_invalid_kernel_inputs() {
    let mut device = MetalDevice::simulated();
    let a = device.allocate_buffer(1024).unwrap();
    let out = device.allocate_buffer(1024).unwrap();
    assert!(device.check_kernel(kernel(KernelType::MatMul), &KernelBuffers::new(vec![a], out)).is_err());
}

#[test]
fn test_metal_device_silu_kernel() {
    let mut device = MetalDevice::simulated();
    let x = device.allocate_buffer(256).unwrap();
    let out = device.allocate_buffer(256).unwrap();
    assert_eq!(device.check_kernel(kernel(KernelType::SiLU), &KernelBuffers::new(vec![x], out)).unwrap(), out);
}

#[test]
fn test_metal_device_softmax_kernel() {
    let mut device = MetalDevice::simulated();
    let x = device.allocate_buffer(256).unwrap();
    let out = device.allocate_buffer(256).unwrap();
    assert_eq!(device.check_kernel(kernel(KernelType::Softmax), &KernelBuffers::new(vec![x], out)).unwrap(), out);
}

#[test]
fn test_metal_device_element_mul_kernel() {
    let mut device = MetalDevice::simulated();
    let a = device.allocate_buffer(256).unwrap();
    let b = device.allocate_buffer(256).unwrap();
    let out = device.allocate_buffer(256).unwrap();
    let result = device.check_kernel(kernel(KernelType::ElementMul), &KernelBuffers::new(vec![a, b], out));
    assert_eq!(result.unwrap(), out);
}

#[test]
fn kernel_with_missing_buffer_names_it() {
    let mut device = MetalDevice::simulated();
    let a = device.allocate_buffer(16).unwrap();
    let err = device.check_kernel(kernel(KernelType::SiLU), &KernelBuffers::new(vec![a], 42)).unwrap_err();
    assert_eq!(err.to_string(), "Buffer 42 not found");
    assert_eq!(KernelType::Attention.arity(), 3);
    assert_eq!(KernelType::Softmax.arity(), 1);
}

#[test]
fn test_gpu_memory_pool_creation() {
    let pool = GPUMemoryPool::new(4096);
    assert_eq!(pool.used_memory().unwrap(), 0);
    assert_eq!(pool.free_memory().unwrap(), 4096);
}

#[test]
fn test_gpu_memory_pool_allocate() {
    let mut pool = GPUMemoryPool::new(4096);
    let start = pool.allocate(1024).unwrap();
    assert_eq!(start, 0);
    assert_eq!(pool.used_memory().unwrap(), 1024);
    assert_eq!(pool.free_memory().unwrap(), 3072);
}

#[test]
fn test_gpu_memory_pool_allocate_multiple() {
    let mut pool = GPUMemoryPool::new(4096);
    let start1 = pool.allocate(1024).unwrap();
    let start2 = pool.allocate(2048).unwrap();
    assert_eq!(start1, 0);
    assert_eq!(start2, 1024);
    assert_eq!(pool.used_memory().unwrap(), 3072);
}

#[test]
fn test_gpu_memory_pool_deallocate() {
    let mut pool = GPUMemoryPool::new(4096);
    let start = pool.allocate(1024).unwrap();
    assert!(pool.deallocate(start, 1024).is_ok());
    assert_eq!(pool.used_memory().unwrap(), 0);
    assert_eq!(pool.free_memory().unwrap(), 4096);
}

#[test]
fn test_gpu_memory_pool_insufficient_memory() {
    let mut pool = GPUMemoryPool::new(1024);
    assert!(pool.allocate(512).is_ok());
    assert!(pool.allocate(512).is_ok());
    assert!(pool.allocate(1).is_err());
}

#[test]
fn pool_appends_freed_space_and_allocates_first_fit() {
    let mut pool = GPUMemoryPool::new(100);
    let a = pool.allocate(30).unwrap();
    let b = pool.allocate(30).unwrap();
    assert_eq!((a, b), (0, 30));
    pool.deallocate(a, 30).unwrap();
    assert_eq!(pool.allocate(10).unwrap(), 60);
    assert_eq!(pool.allocate(30).unwrap(), 70);
    assert_eq!(pool.allocate(30).unwrap(), 0);
    assert_eq!(pool.used_memory().unwrap(), 100);
    assert_eq!(pool.free_memory().unwrap(), 0);
    assert!(pool.deallocate(99, 1).is_err());
}

#[test]
fn test_metal_device_copy_size_mismatch() {
    let mut device = MetalDevice::simulated();
    let id = device.allocate_buffer(100).unwrap();
    let data = vec![5u8; 50];
    assert!(device.copy_to_gpu(id, &data).is_err());
}

#[test]
fn test_metal_device_nonexistent_buffer() {
    let device = MetalDevice::simulated();
    assert!(device.copy_from_gpu(999).is_err());
}
