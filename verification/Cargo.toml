[package]
name = "ruder"
version = "0.1.0"
edition = "2021"
publish = false

[dependencies]
anyhow = "*"
flate2 = "*"
log = "*"
pretty_env_logger = "*"
reqwest = { version = "*", default-features = false, features = ["json", "rustls-tls"] }
serde = { version = "*", features = ["derive"] }
shellexpand = "*"
tar = "*"
tokio = { version = "*", features = ["rt-multi-thread", "macros", "fs", "io-util"] }
toml = "*"
url = "*"
zip = { version = "*", default-features = false, features = ["deflate"] }
