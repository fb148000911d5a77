[package]
name = "remedy"
version = "0.1.0"
edition = "2021"
publish = false

[dependencies]
shlex = "*"
imap = "2"
native-tls = "*"
tokio = { version = "1", features = ["rt-multi-thread", "macros", "sync"] }
futures = "*"
maildir = "*"
serde = { version = "1", features = ["derive"] }
toml = "*"
log = "*"
env_logger = "*"
