[package]
name = "ledger_core"
version = "0.1.0"
edition = "2021"
publish = false

[dependencies]
bigdecimal = "*"
serde = { version = "*", features = ["derive"] }
uuid = { version = "*", features = ["v4"] }
