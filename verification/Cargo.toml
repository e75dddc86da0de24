[package]
name = "session_auth"
version = "0.1.0"
edition = "2021"
publish = false

[dependencies]
axum = "0.6"
axum-login = "0.5"
axum-sessions = "0.5"
futures-util = "0.3"
tokio = { version = "1", features = ["macros", "rt-multi-thread", "time"] }
