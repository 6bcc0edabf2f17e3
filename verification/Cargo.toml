[package]
name = "nyx"
version = "0.1.0"
edition = "2021"
publish = false

[dependencies]
num-bigint = "0.4"
num-traits = "0.2"
rayon = "1"
hmac = "0.12"
sha2 = "0.10"
base64 = "0.22"
zeroize = "1"
chacha20poly1305 = "0.10"
x25519-dalek = { version = "2", features = ["static_secrets"] }
rand = "0.8"
rand_distr = "0.4"
tokio = { version = "1", features = ["full"] }
url = "2"
serde_json = "1"
chrono = "0.4"
gethostname = "0.4"
log = "0.4"
