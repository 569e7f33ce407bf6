[package]
name = "epoch_services"
version = "0.1.0"
edition = "2021"
publish = false

[dependencies]
getrandom = "0.2"
serde = { version = "1", features = ["derive"] }
serde_json = "1"
base64 = "0.22"
tiny_http = "0.12"
ureq = { version = "2", default-features = false, features = ["json"] }
