[package]
name = "bench_workloads"
version = "0.1.0"
edition = "2021"
publish = false

[dependencies]
rayon = "1"
regex = "1"
serde_json = "1"
sha2 = "0.10"
tokio = { version = "1", features = ["macros", "rt-multi-thread", "time"] }
