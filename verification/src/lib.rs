use vstd::prelude::*;

pub mod error;
mod util;
pub mod metal_gpu;
pub mod time;
pub mod gpu_context;
pub mod gpu_batch_scheduler;
pub mod backend_selector;
pub mod backend_manager;
pub mod llama_tokenizer;
pub mod cache_optimizer;
pub mod garbage_collector;
pub mod downloader;
pub mod benchmarks;
pub mod batch;
pub mod batch_measurement;
pub mod batch_async;
pub mod batch_parallel;
pub mod context_manager;
pub mod request_types;
pub mod compute;
pub mod layers;
pub mod kv_cache_optimizer;
pub mod kv_cache;
pub mod embedding;
pub mod pipeline;
pub mod llama_cpp_backend;
pub mod safetensors_loader;
pub mod gpu_kv_cache;
pub mod gpu_backend;
pub mod engine_config;
pub mod model_formats;
pub mod gguf_metadata;
pub mod config;
pub mod tool_api;
pub mod openai_api;
pub mod llama_engine;

verus! {

} // verus!
