[package]
name = "pgdog"
version = "0.1.0"
edition = "2021"
publish = false

[dependencies]
bytes = "1"
libloading = "0.8"
rustls-pki-types = "1"
tokio = { version = "1", features = ["net", "io-util", "time", "rt-multi-thread", "macros", "sync"] }
tokio-rustls = "0.26"
tracing = "0.1"
tracing-subscriber = { version = "0.3", features = ["env-filter", "fmt"] }
