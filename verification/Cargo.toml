[package]
name = "prometheus-metric-storage"
version = "0.1.0"
edition = "2021"
publish = false

[dependencies]
prometheus = { version = "0.13", default-features = false }
lazy_static = "1"
syn = "1"
quote = "1"
proc-macro2 = "1"
