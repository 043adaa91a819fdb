[package]
name = "object0"
version = "0.1.0"
edition = "2021"
publish = false

[dependencies]
aes-gcm = "=0.10.3"
aws-sdk-s3 = "1"
base64 = "=0.22.1"
chrono = "=0.4.45"
flate2 = "=1.1.10"
keyring = "3"
notify = "8"
pbkdf2 = "=0.12.2"
percent-encoding = "=2.3.2"
rand = "=0.8.8"
rfd = "0.15"
serde = { version = "=1.0.229", features = ["derive"] }
serde_json = "=1.0.154"
sha2 = "=0.10.9"
tar = "=0.4.46"
tokio = { version = "1", features = ["fs", "io-util", "sync", "time", "rt", "macros"] }
url = "=2.5.8"
uuid = { version = "=1.29.0", features = ["v4"] }
walkdir = "=2.5.0"
