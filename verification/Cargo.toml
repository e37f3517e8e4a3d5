[package]
name = "socks2http"
version = "0.1.0"
edition = "2021"
publish = false

[dependencies]
anyhow = "=1.0.104"
as-any = "=0.3.2"
async-http-proxy = { version = "=1.2.5", features = ["runtime-tokio", "basic-auth"] }
async-trait = "=0.1.92"
env_logger = "=0.11.11"
log = "=0.4.34"
socks5-impl = "0.5"
tokio = { version = "=1.54.1", features = ["full"] }
