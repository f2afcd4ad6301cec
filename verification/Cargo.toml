[package]
name = "wallet_ledger"
version = "0.1.0"
edition = "2021"
publish = false

[dependencies]
exonum = "0.8"
iron = "0.6"
router = "0.6"
bodyparser = "0.8"
serde = { version = "1", features = ["derive"] }
serde_json = "1"
