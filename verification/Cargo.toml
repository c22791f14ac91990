[package]
name = "buildhub"
version = "0.1.0"
edition = "2021"
publish = false

[dependencies]
md5 = "*"
time = { version = "*", features = ["local-offset"] }
tokio = { version = "*", features = ["full"] }
axum = { version = "*", features = ["ws"] }
serde = { version = "*", features = ["derive"] }
serde_json = "*"
dashmap = "*"
futures-util = "*"
anyhow = "*"
thiserror = "*"
tracing = "*"
tracing-subscriber = { version = "*", features = ["env-filter"] }
tracing-appender = "*"
tower = { version = "*", features = ["limit"] }
tower-http = { version = "*", features = ["cors"] }
config = "*"
base64 = "*"
plist = "*"
serde_bytes = "*"
byteorder = "*"
lettre = { version = "*", default-features = false, features = ["smtp-transport", "builder", "rustls-tls"] }
