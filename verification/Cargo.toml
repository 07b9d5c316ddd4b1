[package]
name = "gh_auth"
version = "0.1.0"
edition = "2021"
publish = false

[dependencies]
base64 = "0.13"
openssl = "0.10"
rand = "0.8"
rand_chacha = "0.3"
url = "2"
urlencoding = "2"
serde_json = "1"
hyper = { version = "0.14", features = ["full"] }
hyper-tls = "0.5"
hyper-staticfile = "0.9"
tokio = { version = "1", features = ["full"] }
clap = "2"
