[package]
name = "deimos"
version = "0.1.0"
edition = "2021"
publish = false

[dependencies]
chrono = "=0.4.45"
core_affinity = "=0.8.3"
crossbeam = "=0.8.5"
csv = "=1.4.0"
levenberg-marquardt = "=0.15.0"
nalgebra = "0.34"
network-interface = "=2.0.5"
postcard = { version = "=1.1.3", features = ["use-std"] }
postgres = "=0.19.14"
postgres-types = "=0.2.14"
reqwest = { version = "=0.12.28", default-features = false, features = ["blocking", "rustls-tls"] }
serde = { version = "=1.0.229", features = ["derive"] }
serde_json = "=1.0.154"
socket2 = "=0.5.10"
tracing = "=0.1.44"
tracing-appender = "=0.2.5"
tracing-subscriber = { version = "=0.3.23", features = ["env-filter", "chrono"] }
typetag = "=0.2.23"
