[package]
name = "gh-guard"
version = "0.1.0"
edition = "2021"
publish = false

[dependencies]
anyhow = "1"
flate2 = "1"
fs4 = { version = "0.13", features = ["sync"] }
hex = "0.4"
hostname = "0.4"
libc = "0.2"
reqwest = { version = "0.12", default-features = false, features = ["blocking", "json", "rustls-tls"] }
serde = { version = "1", features = ["derive"] }
serde_json = "1"
sha2 = "0.10"
tar = "0.4"
tempfile = "3"
thiserror = "2"
time = { version = "0.3", features = ["serde", "formatting", "parsing"] }
toml = "0.8"
walkdir = "2"
whoami = "1"
zip = { version = "2", default-features = false, features = ["deflate"] }
