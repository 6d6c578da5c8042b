[package]
name = "ferrotype"
version = "0.2.0"
edition = "2021"
publish = false

[dependencies]
serde = { version = "*", features = ["derive"] }
serde_json = "*"
linkme = "*"
axum = "*"
tokio = { version = "*", features = ["rt-multi-thread", "macros", "net", "time"] }
tower-http = { version = "*", features = ["cors"] }
