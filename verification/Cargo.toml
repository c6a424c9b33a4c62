[package]
name = "draid"
version = "0.1.0"
edition = "2021"
publish = false

[dependencies]
serde_json = "=1.0.154"
serde = { version = "=1.0.229", features = ["derive"] }
anyhow = "=1.0.104"
async-openai = { version = "=0.42.2", features = ["chat-completion", "embedding"] }
async-trait = "=0.1.92"
futures = "=0.3.34"
tokio = { version = "=1.54.1", features = ["full"] }
tracing = "=0.1.44"
tracing-subscriber = { version = "=0.3.23", features = ["env-filter"] }
poem = { version = "=3.1.12", features = ["websocket", "multipart"] }
poem-openapi = { version = "=5.1.16", features = ["swagger-ui", "uuid", "chrono"] }
poem-grants = "=3.0.2"
reqwest = { version = "=0.13.5", features = ["json"] }
rmcp = { version = "=3.7.0", features = ["client", "reqwest", "transport-streamable-http-client-reqwest"] }
uuid = { version = "=1.29.0", features = ["v4", "serde"] }
chrono = { version = "=0.4.45", features = ["serde"] }
sqlx = { version = "=0.9.0", default-features = false, features = ["postgres", "runtime-tokio", "uuid", "chrono", "migrate"] }
jsonwebtoken = "=11.1.0"
argon2 = "=0.6.0"
sha256 = "=1.6.0"
text-splitter = "=0.33.0"
pgvector = { version = "=0.4.2", features = ["sqlx"] }
