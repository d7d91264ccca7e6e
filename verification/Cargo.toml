[package]
name = "construct_core"
version = "0.1.0"
edition = "2021"
publish = false

[dependencies]
x25519-dalek = { version = "=2.0.1", features = ["static_secrets"] }
ed25519-dalek = { version = "=2.2.0", features = ["rand_core"] }
chacha20poly1305 = "=0.10.1"
hkdf = "=0.12.4"
sha2 = "=0.10.9"
rand = "=0.8.8"
rand_core = { version = "=0.6.4", features = ["getrandom"] }
uuid = { version = "=1.29.0", features = ["v4"] }
base64 = "=0.22.1"
serde = { version = "=1.0.229", features = ["derive"] }
serde_json = "=1.0.154"
serde_bytes = "=0.11.19"
bincode = "=1.3.3"
rmp-serde = "=1.3.1"
thiserror = "=1.0.69"
zeroize = "=1.9.1"
