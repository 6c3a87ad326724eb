[package]
name = "lumaway"
version = "0.1.0"
edition = "2021"
publish = false

[dependencies]
sha2 = "*"
rustls-webpki = "*"
gettext-rs = "*"
rustls = { version = "*", default-features = false, features = ["ring", "std"] }
reqwest = { version = "*", default-features = false, features = ["json", "rustls-tls"] }
tokio = { version = "*", features = ["full"] }
serde = { version = "*", features = ["derive"] }
serde_json = "*"
openssl = "*"
clap = { version = "*", features = ["derive", "env"] }
tracing = "*"
tracing-subscriber = "*"
thiserror = "*"
anyhow = "*"
