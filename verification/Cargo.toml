[package]
name = "image_gateway"
version = "0.1.0"
edition = "2021"
publish = false

[dependencies]
axum = { version = "=0.8.9", features = ["multipart"] }
axum-extra = { version = "=0.12.6", features = ["typed-header"] }
dotenv = "*"
jsonwebtoken = "=11.1.0"
minio = "=0.4.0"
serde = { version = "*", features = ["derive"] }
serde_json = "*"
tokio = { version = "*", features = ["macros", "rt-multi-thread", "net"] }
tracing = "*"
tracing-subscriber = { version = "*", features = ["env-filter", "fmt"] }
