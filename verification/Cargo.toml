[package]
name = "todos"
version = "0.1.0"
edition = "2021"
publish = false

[dependencies]
axum = "0.7"
axum-htmx = "0.6"
serde = { version = "1", features = ["derive"] }
tokio = { version = "1", features = ["full"] }
