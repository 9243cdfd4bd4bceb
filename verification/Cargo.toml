[package]
name = "heroes_service"
version = "0.1.0"
edition = "2021"
publish = false

[dependencies]
axum = "*"
axum-macros = "*"
serde = { version = "*", features = ["derive"] }
tokio = { version = "*", features = ["rt-multi-thread", "macros", "net", "time"] }

[dev-dependencies]
serde_json = "*"
