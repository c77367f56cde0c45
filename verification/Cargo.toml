[package]
name = "p2p_chat"
version = "0.1.0"
edition = "2021"
publish = false

[dependencies]
clap = { version = "4", features = ["derive"] }
local-ip-address = "*"
rand = "*"
rustyline = "*"
serde = { version = "1", features = ["derive", "rc"] }
serde_json = "1"
socket2 = { version = "*", features = ["all"] }
tokio = { version = "1", features = ["full"] }
uuid = { version = "1", features = ["v4"] }
