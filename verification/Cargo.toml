[package]
name = "nacos_adapter"
version = "0.1.0"
edition = "2021"
publish = false

[dependencies]
md5 = "*"
moka = { version = "*", features = ["sync"] }
serde_json = "*"
urlencoding = "*"
tokio = { version = "*", features = ["full"] }
axum = "*"
reqwest = { version = "*", default-features = false }
serde = { version = "*", features = ["derive"] }
futures = "*"
lambda-extension = "*"
aws-lambda-runtime-proxy = "*"
tracing-subscriber = { version = "*", features = ["env-filter"] }
