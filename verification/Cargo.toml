[package]
name = "vrpn"
version = "0.1.0"
edition = "2021"
publish = false

[dependencies]
bytes = "*"
async-std = "*"
futures = "*"
thiserror = "*"
tokio = { version = "*", features = ["net", "time", "rt", "io-util"] }
socket2 = "*"
