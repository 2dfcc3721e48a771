[package]
name = "clash_profiles"
version = "0.1.0"
edition = "2021"
publish = false

[dependencies]
anyhow = "1"
base64 = "0.22"
chrono = "0.4"
serde_yaml_ng = "0.10"
smartstring = "1"
tokio = { version = "1", features = ["fs", "sync"] }
uuid = { version = "1", features = ["v4"] }
