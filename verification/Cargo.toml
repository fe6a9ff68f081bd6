[package]
name = "rdmas"
version = "0.1.0"
edition = "2021"
publish = false

[dependencies]
async-trait = "0.1"
bytemuck = { version = "1", features = ["derive"] }
crossbeam = "0.8"
libc = "0.2"
prost = "0.13"
pyo3 = { version = "0.22", default-features = false, features = ["macros", "abi3-py38", "extension-module"] }
rand = "0.8"
thiserror = "1"
tokio = { version = "1", features = ["rt-multi-thread", "net", "io-util", "sync", "time", "macros"] }
tonic = { version = "0.12", features = ["tls"] }
tracing = "0.1"
xxhash-rust = { version = "0.8", features = ["xxh64"] }
