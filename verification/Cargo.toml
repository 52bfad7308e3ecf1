[package]
name = "fedimint_observer"
version = "0.1.0"
edition = "2021"
publish = false

[dependencies]
anyhow = "*"
axum = "*"
axum-auth = "*"
dotenv = "*"
hex = "*"
serde = { version = "*", features = ["derive"] }
serde_json = "*"
sqlx = { version = "*", default-features = false, features = ["any"] }
tokio = { version = "*", features = ["macros", "net", "rt-multi-thread", "sync"] }
tracing = "*"
tracing-subscriber = { version = "*", features = ["env-filter", "fmt"] }
