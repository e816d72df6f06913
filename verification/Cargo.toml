[package]
name = "engine_core"
version = "0.1.0"
edition = "2021"
publish = false

[dependencies]
bytes = "=1.12.1"
chrono = { version = "=0.4.45", default-features = false, features = ["std"] }
futures = "=0.3.34"
itertools = "=0.10.5"
prost = { version = "=0.10.4", default-features = false, features = ["std"] }
tokio = { version = "=1.54.1", features = ["sync"] }
