[package]
name = "database_ide"
version = "0.1.0"
edition = "2021"
publish = false

[dependencies]
keyring = { version = "=3.6.3", features = ["apple-native", "windows-native"] }
uuid = { version = "=1.29.1", features = ["v4", "serde"] }
postgres = "=0.19.14"
serde = { version = "=1.0.229", features = ["derive"] }
thiserror = "=2.0.21"
