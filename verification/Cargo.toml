[package]
name = "rustspo"
version = "0.1.0"
edition = "2021"
publish = false

[dependencies]
async-std = { version = "=1.13.2", features = ["attributes"] }
async-stream = "=0.3.6"
base64 = "=0.22.1"
chrono = { version = "=0.4.45", features = ["serde"] }
clap = { version = "=4.6.7", features = ["derive"] }
env_logger = "=0.11.11"
futures = "=0.3.34"
http = "=1.5.0"
http-types = "=2.12.0"
log = "=0.4.35"
open = "=5.4.5"
rand = "=0.8.8"
serde = { version = "=1.0.229", features = ["derive"] }
serde_json = "=1.0.154"
surf = { version = "=2.3.2", default-features = false, features = ["h1-client-rustls"] }
thiserror = "=2.0.21"
tiny_http = "=0.12.0"
url = "=2.5.8"
urlencoding = "=2.1.3"
