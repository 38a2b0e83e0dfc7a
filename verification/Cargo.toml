[package]
name = "vectorium"
version = "0.1.0"
edition = "2021"
publish = false

[dependencies]
md5 = "=0.8.1"
glob = "=0.3.4"
anyhow = "=1.0.104"
log = "=0.4.34"
env_logger = "*"
dotenvy = "*"
tokio = { version = "=1.54.1", features = ["rt-multi-thread", "macros"] }
qdrant-client = "=1.20.0"
fastembed = { version = "=7.5.0", default-features = false, features = ["ort-load-dynamic", "hf-hub-rustls-tls"] }
