[package]
name = "waveflow_commands"
version = "0.1.0"
edition = "2021"
publish = false

[dependencies]
blake3 = "=1.8.7"
chrono = "=0.4.45"
lofty = "=0.25.5"
quick-xml = "=0.42.0"
regex = "=1.13.1"
reqwest = { version = "=0.13.5", default-features = false, features = ["json"] }
serde = { version = "=1.0.229", features = ["derive"] }
serde_json = "=1.0.154"
serde_urlencoded = "=0.7.1"
tiny_http = "=0.12.0"
tokio = { version = "=1.54.1", features = ["fs", "rt", "sync", "time"] }
tracing = "=0.1.44"
url = "=2.5.8"
uuid = { version = "=1.29.0", features = ["v4"] }
walkdir = "=2.5.0"
zip = { version = "=9.0.5", default-features = false, features = ["deflate"] }
id3 = "=1.17.2"
sqlx = { version = "=0.8.6", default-features = false, features = ["runtime-tokio", "sqlite"] }
