[package]
name = "animeku"
version = "0.1.0"
edition = "2021"
publish = false

[dependencies]
regex = "1"
base64 = "0.21"
html-escape = "0.2"
humansize = "2"
serde_json = "1"
reqwest = { version = "0.11", default-features = false, features = ["rustls-tls"] }
tokio = { version = "1", features = ["rt-multi-thread"] }
dialoguer = { version = "0.11", features = ["fuzzy-select"] }
colored = "2"
clearscreen = "2"
open = "5"
viuer = "0.7"
image = "0.24"
anyhow = "1"
