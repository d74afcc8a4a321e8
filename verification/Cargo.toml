[package]
name = "chat_core"
version = "0.1.0"
edition = "2021"
publish = false

[dependencies]
rand = "0.8"
uuid = { version = "1", features = ["v4"] }
serde_json = "1"
serde = { version = "1", features = ["derive"] }
tokio = { version = "1", features = ["full"] }
axum = { version = "0.6", features = ["ws", "multipart", "headers"] }
axum-extra = { version = "0.7", features = ["cookie"] }
sqlx = { version = "0.7", features = ["runtime-tokio", "sqlite"] }
askama = "0.12"
tower-http = { version = "0.4", features = ["fs"] }
futures = "0.3"
anyhow = "1"
dotenvy = "0.15"
