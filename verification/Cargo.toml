[package]
name = "motorbridge"
version = "0.1.0"
edition = "2021"
publish = false

[dependencies]
serde_json = "1"
tokio = { version = "1", features = ["macros", "rt-multi-thread", "net", "time"] }
tokio-tungstenite = "0.26"
futures-util = "0.3"
libloading = "0.8"
