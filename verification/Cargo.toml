[package]
name = "envio"
version = "0.1.0"
edition = "2021"
publish = false

[dependencies]
indexmap = "2"
chacha20poly1305 = { version = "0.10", features = ["stream"] }
argon2 = "0.5"
base64 = "0.22"
chrono = { version = "0.4", features = ["serde"] }
regex = "1"
semver = "1"
serde = { version = "1", features = ["derive"] }
serde_json = "1"
serde_with = { version = "3", features = ["base64"] }
bincode = { version = "2", features = ["serde"] }
strum = { version = "0.26", features = ["derive"] }
zeroize = "1"
thiserror = "2"
age = "0.11"
clap = { version = "4", features = ["derive"] }
clap_complete = "4"
colored = "2"
comfy-table = "7"
dirs = "5"
inquire = { version = "0.7", features = ["date"] }
ratatui = "0.29"
reqwest = { version = "0.12", default-features = false, features = ["rustls-tls"] }
tokio = { version = "1", features = ["rt", "rt-multi-thread"] }
indicatif = "0.17"
url = "2"
uuid = { version = "1", features = ["v4"] }
sysinfo = "0.33"
shell-escape = "0.1"
