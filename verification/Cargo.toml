[package]
name = "overlingo"
version = "1.2.0"
edition = "2021"
publish = false

[dependencies]
keyring = { version = "=3.6.3", features = ["apple-native", "windows-native", "linux-native"] }
sys-locale = "=0.3.2"
chrono = "=0.4.45"
serde = { version = "=1.0.229", features = ["derive"] }
serde_json = "=1.0.154"
rand = "=0.8.8"
base64 = "=0.22.1"
tokio = { version = "=1.54.1", features = ["sync", "time", "rt", "macros"] }
tokio-tungstenite = "=0.26.2"
futures-util = "=0.3.34"
http = "=1.5.0"
rubato = "=0.16.2"
rustls = { version = "=0.23.46", default-features = false, features = ["ring", "std"] }
