[package]
name = "ezshark"
version = "0.1.0"
edition = "2021"
publish = false

[dependencies]
aes = "0.8"
cbc = "0.1"
base64 = "0.22"
url = "2"
unicode-width = "*"
uuid = { version = "1", features = ["v4"] }
moka = { version = "0.12", features = ["sync"] }
serde_json = "1"
http = "1"
async-compression = { version = "0.4", features = ["tokio", "gzip", "deflate", "brotli", "zstd"] }
tokio = { version = "1", features = ["full"] }
anyhow = "1"
thiserror = "*"
serde = { version = "1", features = ["derive"] }
log = "0.4"
bytes = "1"
time = { version = "0.3", features = ["formatting", "parsing"] }
http-body-util = "0.1"
hyper = { version = "1", features = ["full"] }
hyper-util = { version = "0.1", features = ["full"] }
futures-util = "0.3"
headers = "*"
tokio-rustls = "*"
hyper-rustls = "*"
hyper-proxy2 = "*"
tokio-graceful = "*"
pin-project-lite = "0.2"
sysinfo = "*"
dirs = "*"
chrono = "0.4"
