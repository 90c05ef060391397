[package]
name = "add_crypto_core"
version = "0.1.0"
edition = "2021"
publish = false

[dependencies]
aes-gcm = "0.10"
argon2 = "0.5"
base64 = "0.22"
blake2 = "0.10"
hex = "0.4"
hkdf = "0.12"
hmac = "0.12"
libc = "0.2"
ml-kem = "*"
ml-dsa = "*"
rand = "0.8"
serde = { version = "1", features = ["derive"] }
serde_json = "1"
sha2 = "0.10"
sha3 = "0.10"
subtle = "2"
toml = "0.8"
x25519-dalek = { version = "2", features = ["static_secrets"] }
zeroize = "1"
