[package]
name = "email_schedule_backend"
version = "0.1.0"
edition = "2021"
publish = false

[dependencies]
indexmap = "2"
lru = "*"
tokio = { version = "1", features = ["full"] }
hyper = { version = "1", features = ["full"] }
hyper-util = { version = "0.1", features = ["full"] }
http-body-util = "0.1"
rustls = "0.23"
rustls-pemfile = "2"
tokio-rustls = "0.26"
