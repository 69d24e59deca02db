[package]
name = "storage_cassandra"
version = "0.1.0"
edition = "2021"
publish = false

[dependencies]
aes-gcm = "0.10"
async-trait = "0.1"
base64 = "0.22"
bcrypt = "0.15"
bigdecimal = "0.4"
cdrs-tokio = "8"
chrono = "0.4"
crc32fast = "1"
futures = "0.3"
rand = "0.9"
serde = { version = "1", features = ["derive"] }
serde_json = "1"
time = "0.3"
tokio = { version = "1", features = ["sync", "time", "rt", "macros"] }
toml = "0.8"
uuid = { version = "1", features = ["v4"] }
zeroize = "1"
