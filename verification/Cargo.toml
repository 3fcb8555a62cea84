[package]
name = "rugs"
version = "0.1.0"
edition = "2021"
publish = false

[dependencies]
axum = "*"
tokio = { version = "*", features = ["macros", "rt-multi-thread", "sync", "net", "signal"] }
serde = { version = "*", features = ["derive"] }
serde_repr = "*"
base64 = "*"
clap = { version = "*", features = ["derive"] }
chrono = "*"
