[package]
name = "void"
version = "0.1.0"
edition = "2021"
publish = false

[dependencies]
axum = { version = "=0.8.9", features = ["ws"] }
bcrypt = "=0.17.1"
dashmap = "=6.2.1"
futures = "=0.3.34"
hex = "=0.4.3"
hmac = "=0.12.1"
mime_guess = "=2.0.5"
rand = "=0.8.8"
rust-embed = { version = "=8.13.0", features = ["interpolate-folder-path"] }
serde = { version = "=1.0.229", features = ["derive"] }
serde_json = "=1.0.154"
sha2 = "=0.10.9"
sqlx = { version = "=0.9.0", default-features = false, features = ["runtime-tokio", "postgres", "migrate"] }
subtle = "=2.6.1"
tokio = { version = "=1.54.1", features = ["rt-multi-thread", "macros", "net", "time", "sync"] }
