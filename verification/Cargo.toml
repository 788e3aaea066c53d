[package]
name = "minerva"
version = "0.1.0"
edition = "2021"
publish = false

[dependencies]
num_cpus = "=1.17.0"
serde = { version = "=1.0.229", features = ["derive"] }
serde_json = "=1.0.154"
tokio = { version = "=1.54.1", features = ["rt-multi-thread"] }
futures = "=0.3.34"
rayon = "=1.12.0"
ndarray = "*"
safetensors = "*"
llama_cpp = "*"
