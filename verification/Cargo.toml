[package]
name = "adb_client"
version = "0.1.0"
edition = "2021"
publish = false

[dependencies]
aes-gcm = "0.10"
curve25519-dalek = "4"
env_logger = "0.11"
hkdf = "0.12"
log = "0.4"
nusb = "*"
rand = "*"
rcgen = { version = "0.13", default-features = false, features = ["pem", "ring"] }
rustls = { version = "0.23", default-features = false, features = ["ring", "std", "tls12"] }
sha2 = "0.10"
subtle = "2"
zeroize = "1"
