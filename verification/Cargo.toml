[package]
name = "filehop"
version = "0.1.0"
edition = "2021"
publish = false

[dependencies]
argon2 = "*"
axum = "0.8"
clap = { version = "4", features = ["derive", "env"] }
fs2 = "0.4"
futures-util = "0.3"
rpassword = "7"
rustix = { version = "1", features = ["fs"] }
serde = { version = "1", features = ["derive"] }
serde_json = "1"
sha2 = "0.10"
sqlx = { version = "0.8", default-features = false, features = ["runtime-tokio", "sqlite", "macros", "migrate"] }
tokio = { version = "1", features = ["full"] }
uuid = { version = "1", features = ["v4"] }
