[package]
name = "cfml_browser"
version = "0.1.0"
edition = "2021"
publish = false

[dependencies]
serde_json = "1"
url = "2"
htmd = "*"
base64 = "0.22"
image = { version = "*", default-features = false, features = ["png"] }
tokio = { version = "1", features = ["rt", "sync", "time"] }
obscura-dom = "0.1.1"
obscura-net = "0.1.1"
