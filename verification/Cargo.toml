[package]
name = "openxiino"
version = "0.1.0"
edition = "2021"
publish = false

[dependencies]
html_editor = "*"
axum = "0.6"
axum-macros = "0.3"
reqwest = { version = "0.11", default-features = false }
serde = "1"
tokio = { version = "1", features = ["macros", "rt-multi-thread"] }
tracing-subscriber = "*"
