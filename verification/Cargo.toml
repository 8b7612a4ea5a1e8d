[package]
name = "food"
version = "0.1.0"
edition = "2021"
publish = false

[dependencies]
anyhow = "1"
axum = "0.8"
chrono = { version = "0.4", default-features = false, features = ["std", "serde"] }
heck = "0.5"
http = "1"
maud = { version = "*", features = ["axum"] }
reqwest = { version = "0.12", default-features = false }
serde = { version = "1", features = ["derive"] }
serde_json = "1"
sqlx = { version = "0.8", default-features = false, features = ["sqlite", "runtime-tokio"] }
thiserror = "2"
tokio = { version = "1", features = ["macros", "rt-multi-thread", "net"] }
tower-livereload = "*"
tracing = "0.1"
tracing-subscriber = { version = "0.3", features = ["env-filter"] }
