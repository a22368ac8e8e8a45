[package]
name = "sftp_engine"
version = "0.1.0"
edition = "2021"
publish = false

[dependencies]
tokio-util = "0.7"
tokio = { version = "1", features = ["full"] }
russh = "*"
russh-sftp = "2"
serde = { version = "1", features = ["derive"] }
serde_json = "1"
directories = "*"
thiserror = "2"
