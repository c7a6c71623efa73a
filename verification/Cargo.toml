[package]
name = "aggsig"
version = "0.1.0"
edition = "2021"
publish = false

[dependencies]
bn254 = "=0.0.1"
substrate-bn = "=0.6.0"
bls-signatures = "=0.15.0"
hex = "=0.4.3"
uuid = { version = "=1.29.0", features = ["v4"] }
rand_core = { version = "=0.6.4", features = ["getrandom"] }
k256 = "=0.13.4"
num-bigint = "=0.4.8"
ark-bn254 = "=0.4.0"
bn254_hash2curve = "=0.1.2"
actix-web = "=4.18.1"
reqwest = { version = "=0.12.28", default-features = false, features = ["json"] }
tokio = { version = "=1.54.1", features = ["full"] }
clap = { version = "=4.6.7", features = ["derive"] }
serde_json = "=1.0.154"

[dev-dependencies]
bls12_381 = "=0.8.0"
