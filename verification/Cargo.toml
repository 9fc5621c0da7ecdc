[package]
name = "koffer"
version = "0.1.0"
edition = "2021"
publish = false

[dependencies]
aes-gcm = "=0.11.1"
chacha20poly1305 = "=0.11.0"
hkdf = "=0.13.0"
sha2 = "=0.11.1"
ml-kem = { version = "=0.2.3", features = ["deterministic"] }
ml-dsa = "=0.1.2"
x25519-dalek = { version = "=3.0.0", features = ["static_secrets"] }
subtle = "=2.6.1"
zeroize = "=1.9.1"
hbs-lms = "=0.1.1"
oqs = "*"

[dev-dependencies]
minicbor = { version = "=2.3.1", features = ["alloc"] }
