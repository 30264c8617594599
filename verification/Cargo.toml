[package]
name = "s3insqlite"
version = "0.1.0"
edition = "2021"
publish = false

[dependencies]
chrono = "0.4"
hex = "0.4"
md5 = "*"
num_cpus = "1"
axum = "0.8"
tokio = { version = "1", features = ["full"] }
tower-http = { version = "*", features = ["trace"] }
tracing = "0.1"
log = "0.4"
env_logger = "*"
r2d2 = "0.8"
r2d2_sqlite = { version = "*", features = ["bundled"] }
serde = { version = "1", features = ["derive"] }
config = { version = "*", default-features = false, features = ["toml"] }
