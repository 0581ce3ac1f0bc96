[package]
name = "brokerx"
version = "0.1.0"
edition = "2021"
publish = false

[dependencies]
uuid = { version = "=1.29.0", features = ["v4", "serde"] }
chrono = { version = "=0.4.45", features = ["serde"] }
rand = "=0.8.8"
argon2 = "=0.5.3"
serde = { version = "=1.0.229", features = ["derive"] }
serde_json = "=1.0.154"
tokio = { version = "=1.54.1", features = ["rt-multi-thread", "macros", "sync", "time", "net"] }
axum = "=0.8.9"
sqlx = { version = "=0.8.6", default-features = false, features = ["postgres", "runtime-tokio", "json"] }
tracing = "=0.1.44"
dotenvy = "=0.15.7"
jsonwebtoken = "=9.3.1"
lettre = { version = "=0.11.23", default-features = false, features = ["builder", "smtp-transport", "rustls-tls"] }
clap = { version = "4", features = ["derive"] }
hdrhistogram = "7"
color-eyre = "0.6"
tracing-subscriber = { version = "0.3", features = ["env-filter"] }
lazy_static = "1"
