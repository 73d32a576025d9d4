[package]
name = "financial_signal"
version = "0.1.0"
edition = "2021"
publish = false

[dependencies]
sha2 = "0.10"
hex = "0.4"
chrono = "0.4"
serde = { version = "1", features = ["derive"] }
serde_json = "1"
serde_jcs = "0.1"
csv = "1"
thiserror = "2"
clap = { version = "4", features = ["derive"] }
