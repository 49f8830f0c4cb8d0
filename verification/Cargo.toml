[package]
name = "reactor_experiments"
version = "0.1.0"
edition = "2021"
publish = false

[dependencies]
bytes = "1"
prost = "0.13"
prost-types = "0.13"
crossbeam = "0.8"
rand = "0.8"
log = "0.4"
simple_logger = "*"
structopt = "0.3"
serde = { version = "1", features = ["derive"] }
serde_json = "1"
tokio = { version = "1", features = ["full"] }
tokio-util = { version = "0.7", features = ["codec"] }
tokio-serde = { version = "*", features = ["json"] }
futures = "0.3"
futures-util = "0.3"
ipc-channel = "*"
