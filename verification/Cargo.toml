[package]
name = "parasite_registry"
version = "0.1.0"
edition = "2021"
publish = false

[dependencies]
uuid = { version = "=1.27.0", features = ["v4", "serde"] }
serde = { version = "=1.0.229", features = ["derive"] }
serde_json = "=1.0.151"
prettytable-rs = "=0.10.0"
dotenv = "=0.15.0"
tracing-subscriber = "=0.3.23"
