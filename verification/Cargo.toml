[package]
name = "fixture_server"
version = "0.1.0"
edition = "2021"
publish = false

[dependencies]
form_urlencoded = "*"
serde_json = "*"
multipart = { version = "*", default-features = false, features = ["server"] }
tiny_http = "*"
