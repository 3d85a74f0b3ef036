[package]
name = "proxypass"
version = "0.2.5"
edition = "2021"
publish = false

[dependencies]
anyhow = "1"
base64 = "0.22"
bytes = "1"
clap = { version = "4", features = ["derive"] }
dirs = "5"
http-body-util = "0.1"
hyper = { version = "1", features = ["server", "client", "http1"] }
hyper-util = { version = "0.1", features = ["tokio"] }
keyring = "3"
libc = "0.2"
libgssapi = "*"
reqwest = { version = "0.12", default-features = false, features = ["rustls-tls"] }
rpassword = "7"
rquickjs = "*"
serde = { version = "1", features = ["derive"] }
socket2 = "0.5"
tokio = { version = "1", features = ["full"] }
toml = "0.8"
tracing = "0.1"
tracing-subscriber = { version = "0.3", features = ["env-filter"] }
