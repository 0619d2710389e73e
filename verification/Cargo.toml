[package]
name = "learn_rust_web_server"
version = "0.1.0"
edition = "2021"
publish = false

[dependencies]
axum = "0.6"
serde = { version = "1", features = ["derive"] }
serde_json = "1"
tokio = { version = "1", features = ["macros", "rt-multi-thread"] }
tower-cookies = "0.9"
tower-http = { version = "0.4", features = ["fs"] }
uuid = { version = "1", features = ["v4"] }
