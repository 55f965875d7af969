[package]
name = "surf_pool"
version = "0.2.0"
edition = "2021"
publish = false

[dependencies]
async-std = { version = "=1.13.2", features = ["attributes", "unstable"] }
async-weighted-semaphore = "=0.2.1"
surf = { version = "=2.3.2", default-features = false, features = ["h1-client", "middleware-logger", "encoding"] }
thiserror = "=1.0.69"
