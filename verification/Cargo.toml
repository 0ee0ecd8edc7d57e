[package]
name = "alap"
version = "0.1.0"
edition = "2021"
publish = false

[dependencies]
lexopt = "*"
serde = { version = "*", features = ["derive"] }
serde_json = "*"
thiserror = "*"
toml = { version = "*", features = ["preserve_order"] }
