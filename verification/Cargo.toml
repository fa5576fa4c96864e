[package]
name = "flv_remuxer"
version = "0.1.0"
edition = "2021"
publish = false

[dependencies]
tokio = { version = "1", features = ["full"] }
url = "2"
serde = { version = "1", features = ["derive"] }
serde_json = "1"
log = "0.4"
simple_logger = "4"
clap = { version = "3.2", features = ["derive"] }
hyper = { version = "0.14", features = ["server", "http1", "tcp", "stream"] }
futures = "0.3"
futures-util = { version = "0.3", features = ["sink"] }
bytes = "1"
tokio-tungstenite = "0.17"
