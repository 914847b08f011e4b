[package]
name = "chainhead_rpc"
version = "0.1.0"
edition = "2021"
publish = false

[dependencies]
hex = "0.4"
impl-serde = "0.4"
serde = { version = "1", features = ["derive"] }
serde_json = "1"
futures = "0.3"
parity-scale-codec = { version = "3", features = ["derive"] }
