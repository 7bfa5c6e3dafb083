[package]
name = "pipeline"
version = "0.1.0"
edition = "2021"
publish = false

[dependencies]
anyhow = "1"
thiserror = "1"
async-trait = "0.1"
dyn-clone = "1"
futures = "0.3"
tokio = { version = "1", features = ["time", "rt", "macros"] }
