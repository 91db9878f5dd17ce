[package]
name = "ombracrypt"
version = "0.4.3"
edition = "2021"
publish = false

[dependencies]
aes-gcm = "0.10"
argon2 = "0.5"
chacha20poly1305 = "0.10"
pqcrypto-kyber = "0.8"
pqcrypto-traits = "0.3"
rand = "0.8"
sha2 = "0.10"
x25519-dalek = { version = "2", features = ["static_secrets"] }
zeroize = "1"
tar = "0.4"
indicatif = "0.17"
colored = "2"
clap = { version = "4", features = ["derive"] }
inquire = "0.7"
