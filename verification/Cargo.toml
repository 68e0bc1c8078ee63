[package]
name = "lore_auth"
version = "0.1.0"
edition = "2021"
publish = false

[dependencies]
anstyle = "1"
anyhow = "1"
async-trait = "0.1"
base64 = "0.22"
chrono = "0.4"
clap = { version = "4", features = ["derive"] }
jsonwebtoken = "9"
keyring = { version = "3", features = ["linux-native"] }
parking_lot = "0.12"
reqwest = { version = "0.12", default-features = false, features = ["rustls-tls"] }
ring = "0.17"
serde = { version = "1", features = ["derive"] }
serde_json = { version = "1", features = ["raw_value"] }
serde_with = "3"
thiserror = "2"
tokio = { version = "1", features = ["rt", "sync", "time"] }
toml = "0.8"
tonic = { version = "0.12", default-features = false, features = ["transport", "tls", "tls-native-roots"] }
tracing = "0.1"
url = "2"
