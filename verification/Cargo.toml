[package]
name = "hexafreeze"
version = "0.1.0"
edition = "2021"
publish = false

[dependencies]
chrono = "0.4"
once_cell = "1"
thiserror = "1"
tokio = { version = "1", features = ["sync", "time", "rt"] }
tracing = "0.1"
