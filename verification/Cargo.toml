[package]
name = "patroni_exporter"
version = "0.1.0"
edition = "2021"
publish = false

[dependencies]
base64 = "0.13"
hyper = "0.13"
lazy_static = "1.4"
prometheus = { version = "0.13", default-features = false }
serde_json = "1"
structopt = "0.3"
tokio = { version = "0.2", features = ["macros", "rt-threaded", "time"] }
tracing = "0.1"
tracing-subscriber = "0.2"
uuid = "0.8"
