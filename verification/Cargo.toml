[package]
name = "candle_gnn"
version = "0.1.0"
edition = "2021"
publish = false

[dependencies]
half = "=2.7.1"
float8 = "=0.7.0"
cudarc = { version = "=0.19.10", default-features = false, features = ["std", "driver", "nvrtc", "cublas", "curand", "cusparse", "f16", "f8", "dynamic-loading", "cuda-12080"] }
