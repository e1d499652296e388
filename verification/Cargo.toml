[package]
name = "intent_fuzz"
version = "0.1.0"
edition = "2021"
publish = false

[dependencies]
clap = { version = "=4.6.7", features = ["derive"] }
fasthash = "=0.4.0"
serde = { version = "=1.0.229", features = ["derive"] }
serde_json = "=1.0.151"
subprocess = "=0.2.15"
tempfile = "=3.27.0"
