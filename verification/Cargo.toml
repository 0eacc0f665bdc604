[package]
name = "hoarder"
version = "0.1.0"
edition = "2021"
publish = false

[dependencies]
chrono = { version = "=0.4.45", default-features = false, features = ["std"] }
infer = "=0.22.0"
kamadak-exif = "=0.5.5"
url = "=2.5.8"
serde_json = "=1.0.154"
serde = { version = "=1.0.229", features = ["derive"] }
toml = "=0.8.23"
clap = "=4.6.7"
glob = "=0.3.4"
reqwest = { version = "=0.12.28", features = ["blocking"] }

[dev-dependencies]
regex = "1"
