[package]
name = "sockjs"
version = "0.1.0"
edition = "2021"
publish = false

[dependencies]
serde_json = "1"
md5 = "0.7"
rand = "0.8"
percent-encoding = "2"
time = { version = "0.3", features = ["formatting"] }
