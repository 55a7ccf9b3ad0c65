[package]
name = "photo_album"
version = "0.1.0"
edition = "2021"
publish = false

[dependencies]
base64 = "0.21"
bcrypt = "0.15"
regex = "1"
time = "0.3"
uuid = { version = "1", features = ["v4"] }
rand = "0.8"
serde = { version = "1", features = ["derive"] }
thiserror = "1"
async-trait = "0.1"
tokio = { version = "1", features = ["full"] }
sqlx = { version = "0.7", default-features = false, features = ["runtime-tokio", "sqlite", "macros"] }
axum = "0.7"
axum-login = "0.15"
tower-sessions-sqlx-store = { version = "0.12", features = ["sqlite"] }
image = { version = "0.24", default-features = false, features = ["jpeg", "png", "webp"] }
rustface = "0.1"
