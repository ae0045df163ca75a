[package]
name = "icon_extractor"
version = "0.1.0"
edition = "2021"
publish = false

[dependencies]
base64 = "0.22"
image = { version = "0.25", default-features = false, features = ["png", "jpeg", "ico", "gif", "bmp", "webp"] }
url = "2"
serde = { version = "1", features = ["derive"] }
log = "0.4"
reqwest = { version = "0.12", default-features = false, features = ["rustls-tls"] }

[dev-dependencies]
regex = "1"
