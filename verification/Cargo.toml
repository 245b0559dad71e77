[package]
name = "cbnb_node"
version = "0.1.0"
edition = "2021"
publish = false

[dependencies]
serde = { version = "=1.0.229", features = ["derive"] }
serde_json = "=1.0.154"
uuid = { version = "=1.29.1", features = ["v4"] }
getrandom = "=0.4.3"
dotenv = "=0.15.0"
log = "=0.4.35"
clap = "=2.34.0"
walkdir = "=2.5.0"
