[package]
name = "zcstring"
version = "0.1.0"
edition = "2021"
publish = false

[dependencies]
arcstr = "*"
serde = { version = "*", features = ["derive"] }
serde_json = "*"
thiserror = "*"
