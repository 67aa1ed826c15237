[package]
name = "cita_services"
version = "0.1.0"
edition = "2021"
publish = false

[dependencies]
lru = "=0.7.8"
rayon = "=1.12.0"
serde_json = "=1.0.154"
cita-types = "=0.1.2"
cita-crypto = { version = "=0.1.0", features = ["secp256k1"] }
cita-util = "=0.1.0"
