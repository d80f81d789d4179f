[package]
name = "swift_auth"
version = "0.1.0"
edition = "2021"
publish = false

[dependencies]
jsonwebtoken = { version = "=11.1.0", features = ["rust_crypto"] }
uuid = { version = "=1.27.0", features = ["v4", "v7", "serde"] }
argon2 = "=0.6.0"
validator = "=0.21.0"
axum = { version = "*", features = ["macros"] }
axum-extra = { version = "*", features = ["cookie"] }
http = "*"
serde = { version = "*", features = ["derive"] }
serde_json = "*"
time = "*"
chrono = { version = "*", features = ["serde"] }
tokio = { version = "*", features = ["full"] }
tower = "*"
tower-http = { version = "*", features = ["trace", "request-id"] }
tracing = "*"
tracing-subscriber = { version = "*", features = ["env-filter"] }
diesel = { version = "*", default-features = false, features = ["postgres_backend", "uuid", "chrono"] }
diesel-async = { version = "*", features = ["postgres", "bb8"] }
bb8 = "*"
