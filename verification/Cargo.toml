[package]
name = "yaak_plugin_runtime"
version = "0.1.0"
edition = "2021"
publish = false

[dependencies]
dunce = "=1.0.5"
log = "0.4"
path-slash = "=0.2.1"
regex = "=1.13.1"
tokio = { version = "=1.54.1", features = ["fs", "macros", "net", "rt-multi-thread", "sync", "time"] }
tonic = "=0.12.3"
