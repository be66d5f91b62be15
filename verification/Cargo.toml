[package]
name = "hss_cli"
version = "0.1.0"
edition = "2021"
publish = false

[dependencies]
serde_json = "=1.0.154"
jenkins-sdk = "=0.1.10"
tokio = { version = "=1.54.1", features = ["macros", "rt-multi-thread", "time", "signal"] }
dirs = "=5.0.1"
