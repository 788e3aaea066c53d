use minerva::compute::{GPUComputeConfig, GPUComputeEngine, GPUInferenceConfig, GPULlamaInference};
use minerva::gpu_context::{GpuContext, GpuDevice};

fn context() -> GpuContext {
    GpuContext::new(GpuDevice::Cpu).unwrap_or_else(|_| GpuContext::fallback())
}

#[test]
fn test_gpu_context_creation() {
    let ctx = context();
    assert!(ctx.available_memory() > 0);
}

#[test]
fn test_gpu_context_device_detection() {
    let ctx = context();
    let device = ctx.device();
    assert!(matches!(device, GpuDevice::Metal | GpuDevice::Cuda | GpuDevice::Cpu));
}

#[test]
fn test_gpu_context_allocate() {
    let mut ctx = context();
    let initial = ctx.allocated_memory();
    let size = 100 * 1024 * 1024;
    assert!(ctx.allocate(size).is_ok());
    assert_eq!(ctx.allocated_memory(), initial + size);
}

#[test]
fn test_gpu_context_deallocate() {
    let mut ctx = context();
    let size = 100 * 1024 * 1024;
    assert!(ctx.allocate(size).is_ok());
    assert!(ctx.deallocate(size).is_ok());
    assert_eq!(ctx.allocated_memory(), 0);
}

#[test]
fn test_gpu_context_out_of_memory() {
    let mut ctx = GpuContext::with_usage(GpuDevice::Cpu, 100, 200);
    assert!(ctx.allocate(200).is_err());
}

#[test]
fn test_gpu_context_available_memory() {
    let mut ctx = GpuContext::with_usage(GpuDevice::Cpu, 100, 500);
    assert_eq!(ctx.available_memory(), 400);
    assert!(ctx.allocate(100).is_ok());
    assert_eq!(ctx.available_memory(), 300);
}

#[test]
fn gpu_context_budgets_and_messages() {
    assert_eq!(GpuContext::new(GpuDevice::Metal).unwrap().max_memory(), 8_589_934_592);
    assert_eq!(GpuContext::new(GpuDevice::Cuda).unwrap().max_memory(), 13_743_895_552);
    assert_eq!(GpuContext::new(GpuDevice::Cpu).unwrap().max_memory(), 4_294_967_296);
    let mut ctx = GpuContext::with_usage(GpuDevice::Cpu, 100, 200);
    assert_eq!(ctx.allocate(101).unwrap_err().to_string(), "GPU memory exceeded: 100 + 101 > 200");
    assert_eq!(ctx.allocated_memory(), 100);
    assert!(ctx.allocate(100).is_ok());
    assert_eq!(ctx.available_memory(), 0);
    assert_eq!(
        ctx.deallocate(201).unwrap_err().to_string(),
        "Attempting to deallocate more than allocated"
    );
    assert_eq!(GpuContext::fallback().device(), GpuDevice::Cpu);
}

#[test]
fn test_gpu_compute_config_default() {
    let config = GPUComputeConfig::default();
    assert!(config.enabled);
    assert!(config.use_simulation);
    assert_eq!(config.pool_size, 4 * 1024 * 1024 * 1024);
}

#[test]
fn test_gpu_compute_engine_creation() {
    let config = GPUComputeConfig { enabled: true, use_simulation: true, pool_size: 1024 * 1024 };
    let engine = GPUComputeEngine::new(config).unwrap();
    assert!(engine.is_enabled());
}

#[test]
fn test_gpu_compute_engine_simulated() {
    let engine = GPUComputeEngine::simulated().unwrap();
    assert!(engine.is_enabled());
    let info = engine.device_info();
    assert!(info.is_simulated);
}

#[test]
fn test_gpu_disabled() {
    let config = GPUComputeConfig { enabled: false, use_simulation: false, ..Default::default() };
    let engine = GPUComputeEngine::new(config).unwrap();
    assert!(!engine.is_enabled());
}

#[test]
fn test_gpu_inference_config_default() {
    let config = GPUInferenceConfig::default();
    assert!(config.gpu_enabled);
    assert!(config.use_simulation);
    assert_eq!(config.num_heads, 8);
    assert_eq!(config.head_dim, 64);
}

#[test]
fn test_gpu_llama_inference_creation() {
    let config = GPUInferenceConfig::default();
    let inference = GPULlamaInference::new(config).unwrap();
    assert!(inference.is_gpu_enabled());
}

#[test]
fn test_gpu_llama_inference_simulated() {
    let inference = GPULlamaInference::simulated().unwrap();
    assert!(inference.is_gpu_enabled());
}

#[test]
fn test_config_getter() {
    let config = GPUInferenceConfig { num_heads: 4, head_dim: 8, ..Default::default() };
    let inference = GPULlamaInference::new(config.clone()).unwrap();
    assert_eq!(inference.config().num_heads, 4);
    assert_eq!(inference.config().head_dim, 8);
}
