[package]
name = "git_protocol"
version = "0.1.0"
edition = "2021"
publish = false

[dependencies]
anyhow = "=1.0.104"
async-stream = "=0.3.6"
bytes = "=1.12.1"
futures = "=0.3.34"
gix-hash = "=0.14.2"
itertools = "=0.15.0"
maplit = "=1.0.2"
rustc-hash = "=2.1.3"
tokio = { version = "=1.54.1", features = ["rt"] }
