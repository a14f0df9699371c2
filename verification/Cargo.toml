[package]
name = "orchestrator"
version = "0.1.0"
edition = "2021"
publish = false

[dependencies]
argon2 = { version = "0.5", features = ["std"] }
rand_core = { version = "0.6", features = ["getrandom"] }
sha2 = "0.10"
serde_json = "1"
uuid = { version = "1", features = ["v7"] }
