[package]
name = "dustloopbot"
version = "0.1.0"
edition = "2021"

[dependencies]
tokio = { version = "=1.53.2", features = ["full"] }
tokio-tungstenite = "=0.30.0"
futures-util = "=0.3.34"
url = "=2.5.8"
