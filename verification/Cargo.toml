[package]
name = "flow_core"
version = "0.1.0"
edition = "2021"
publish = false

[dependencies]
tokio = { version = "1", default-features = false, features = ["sync", "rt"] }
http = "0.2"
headers = "0.3"
tonic = { version = "0.11", default-features = false }

[dev-dependencies]
unescaper = "0.1"
