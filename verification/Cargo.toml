[package]
name = "rcon_bridge"
version = "0.1.0"
edition = "2021"
publish = false

[dependencies]
rand = "*"
tungstenite = "*"
clap = { version = "*", features = ["derive"] }

[dev-dependencies]
serde_json = "*"
