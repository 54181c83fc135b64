[package]
name = "sandoitchi_bridge_service"
version = "0.1.0"
edition = "2021"
publish = false

[dependencies]
regex = "1"
evalexpr = "11"
serde = { version = "1", features = ["derive"] }
serde_json = "1"
tungstenite = "0.24"
log = "0.4"
clap = { version = "4", features = ["derive"] }
log4rs = "1"
serde_yaml = "0.9"
