[package]
name = "pullpiri"
version = "0.1.0"
edition = "2021"
publish = false

[dependencies]
base64 = "0.22"
hostname = "0.4"
if-addrs = "0.13"
serde = { version = "1", features = ["derive"] }
serde_yaml = "0.9"
thiserror = "1"
tokio = { version = "1", features = ["rt", "rt-multi-thread", "sync", "net", "time"] }
chrono = "0.4"
libc = "0.2"
prost = "0.13"
bytes = "1"
hyper = { version = "0.14", features = ["client", "http1", "runtime"] }
hyperlocal = "0.8"
tonic = "0.12"
