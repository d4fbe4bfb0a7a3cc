[package]
name = "tonic"
version = "0.1.0"
edition = "2021"
publish = false

[dependencies]
bytes = "1"
futures-util = { version = "0.3", default-features = false }
http = "0.2"
http-body = "0.4"
hyper = "0.14"
matchit = "0.7"
pin-project = "1"
tokio = { version = "1", features = ["rt"] }
tower = { version = "0.4", features = ["util"] }
tower-layer = "0.3"
tower-service = "0.3"
