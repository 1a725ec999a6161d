[package]
name = "anonycast"
version = "0.1.0"
edition = "2021"
publish = false

[dependencies]
sha2 = "=0.10.9"
rsa = { version = "=0.9.10", features = ["serde"] }
aes-gcm = "=0.10.3"
curve25519-dalek = { version = "=4.1.3", features = ["rand_core"] }
nazgul = "=2.1.0"
rand = "=0.8.8"
bincode = "=1.3.3"
serde = { version = "=1.0.229", features = ["derive"] }
serde_json = "=1.0.151"
drand-client-rs = "=0.1.0"
tokio = { version = "=1.53.2", features = ["full"] }
clap = { version = "=4.6.7", features = ["derive"] }
reqwest = { version = "=0.11.27", features = ["json"] }
tor-stream = "=0.3.0"
