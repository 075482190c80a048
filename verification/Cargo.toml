[package]
name = "fabro"
version = "0.1.0"
edition = "2021"
publish = false

[dependencies]
anyhow = "1"
async-trait = "0.1"
axum = "=0.8.9"
chrono = { version = "0.4", default-features = false, features = ["clock", "std"] }
futures = "0.3"
jsonschema = { version = "=0.46.10", default-features = false }
rmcp = { version = "=3.8.0", features = ["server", "transport-io"] }
serde = { version = "1", features = ["derive"] }
serde_json = "=1.0.154"
sqlx = { version = "=0.9.0", default-features = false, features = ["runtime-tokio", "sqlite", "macros", "migrate"] }
strum = { version = "*", features = ["derive"] }
thiserror = "2"
tokio = { version = "=1.54.1", features = ["full"] }
toml = "=1.1.8"
tracing = "0.1"
