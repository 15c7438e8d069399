[package]
name = "vibedev"
version = "0.1.0"
edition = "2021"
publish = false

[dependencies]
anyhow = "1"
dirs = "4"
futures = "0.3"
log = "0.4"
semver = "1"
serde = { version = "1", features = ["derive"] }
serde_json = { version = "1", features = ["preserve_order"] }
serde_urlencoded = "0.7"
smol = "2"
tempfile = "3"
url = "2"
urlencoding = "2"
uuid = { version = "1", features = ["v4"] }
which = "6"
