[package]
name = "localauth0"
version = "0.1.0"
edition = "2021"
publish = false

[dependencies]
openssl = "=0.10.81"
jsonwebtoken = "=9.3.1"
base64 = "=0.22.1"
base64-url = "=3.0.4"
uuid = { version = "=1.27.0", features = ["v4"] }
rand = "=0.8.8"
chrono = { version = "=0.4.45", features = ["serde"] }
serde = { version = "=1.0.229", features = ["derive"] }
serde_json = "=1.0.151"
toml = "=0.8.23"
actix-web = "=4.15.0"
