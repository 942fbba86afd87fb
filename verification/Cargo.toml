[package]
name = "stock_ledger"
version = "0.1.0"
edition = "2021"
publish = false

[dependencies]
uuid = { version = "*", features = ["v4"] }
chrono = "*"
serde = { version = "*", features = ["derive"] }
axum = "*"
tokio = { version = "*", features = ["full"] }
tower-http = { version = "*", features = ["cors", "trace"] }
tower-sessions = "*"
tower-sessions-rusqlite-store = "*"
rusqlite = { version = "*", features = ["bundled"] }
time = "*"
dotenv = "*"
url = "*"
reqwest = { version = "*", default-features = false, features = ["json"] }
mongodb = "*"
futures-util = "*"
tracing = "*"
tracing-subscriber = "*"
