[package]
name = "wist_agentd"
version = "0.1.3"
edition = "2021"
publish = false

[dependencies]
libc = "=0.2.191"
tokio = { version = "=1.54.1", features = ["rt", "macros"] }
toml = "=0.9.12"
wist-contracts = "=0.1.2"
wist-shared = "=0.1.4"
