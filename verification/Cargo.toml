[package]
name = "filelink"
version = "0.1.0"
edition = "2021"
publish = false

[dependencies]
actix-files = "=0.6.10"
actix-web = { version = "=4.18.1", features = ["rustls"] }
actix-ws = "0.3"
anyhow = "=1.0.104"
async-std = "=1.13.2"
diesel = { version = "=2.3.14", features = ["sqlite", "r2d2"] }
env_logger = "=0.10.2"
futures-util = "=0.3.34"
log = "=0.4.34"
r2d2 = "=0.8.10"
rand = "=0.8.8"
rustls = "=0.20.9"
rustls-pemfile = "=1.0.4"
serde = { version = "=1.0.229", features = ["derive"] }
serde_json = "=1.0.154"
sodiumoxide = "=0.2.7"
thiserror = "=1.0.69"
uuid = "=1.29.0"
