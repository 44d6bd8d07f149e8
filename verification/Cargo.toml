[package]
name = "mangatracker"
version = "0.1.0"
edition = "2021"
publish = false

[dependencies]
axum = "0.8"
tokio = { version = "1", features = ["macros", "rt-multi-thread", "net", "signal"] }
tower-http = { version = "0.6", features = ["fs", "cors"] }
serde = { version = "1", features = ["derive"] }
rusqlite = "0.32"
reqwest = { version = "0.12", default-features = false, features = ["json", "rustls-tls"] }
