[package]
name = "comet_delta"
version = "0.1.0"
edition = "2021"
publish = false

[dependencies]
datafusion = { version = "=53.1.0", default-features = false }
delta_kernel = { version = "=0.24.0", features = ["arrow-58", "default-engine-rustls", "internal-api"] }
futures = "0.3"
itertools = "0.14"
tokio = { version = "1", features = ["rt", "rt-multi-thread"] }
url = "=2.5.8"

[dev-dependencies]
tempfile = "3"
