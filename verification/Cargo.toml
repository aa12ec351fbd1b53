[package]
name = "gowin_flash"
version = "0.1.0"
edition = "2021"
publish = false

[dependencies]
anyhow = "*"
rmcp = "*"
schemars = "*"
serde = { version = "*", features = ["derive"] }
serde_json = "*"
tokio = { version = "*", features = ["full"] }
