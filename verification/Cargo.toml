[package]
name = "parviocula"
version = "0.1.0"
edition = "2021"
publish = false

[dependencies]
axum = { version = "0.8", default-features = false }
percent-encoding = "2"
pyo3 = "0.23"
pyo3-async-runtimes = { version = "0.23", features = ["tokio-runtime"] }
tokio = { version = "1", features = ["sync", "rt", "macros"] }
tracing = "0.1"
