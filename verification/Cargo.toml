[package]
name = "ovenmitts"
version = "0.1.0"
edition = "2021"
publish = false

[dependencies]
argon2 = "0.5"
base64 = "0.13"
rand = "0.8"
rand_core = { version = "0.6", features = ["getrandom"] }
url = { version = "=2.4.1", features = ["serde"] }
cookie = { version = "0.17", features = ["private"] }
axum = "0.6"
tower-cookies = "0.9"
sqlx = { version = "0.6", features = ["runtime-tokio-rustls", "sqlite", "chrono"] }
tokio = { version = "1", features = ["full"] }
serde = { version = "1", features = ["derive"] }
chrono = { version = "0.4", features = ["serde"] }
thiserror = "1"
eyre = "0.6"
figment = { version = "0.10", features = ["toml", "env"] }
reqwest = { version = "0.11", default-features = false, features = ["json", "rustls-tls"] }

[dev-dependencies]
regex = "1"
