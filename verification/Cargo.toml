[package]
name = "dmx_engine"
version = "0.1.0"
edition = "2021"
publish = false

[dependencies]
ewebsock = "0.4"
log = "0.4"
rust_dmx = "*"
serde = { version = "1", features = ["derive"] }
serde_json = "1"
tungstenite = "0.21"
