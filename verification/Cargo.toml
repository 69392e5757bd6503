[package]
name = "ecies_bn254"
version = "0.1.0"
edition = "2021"
publish = false

[dependencies]
ark-bn254 = "0.4"
ark-ec = "0.4"
ark-ff = "0.4"
clap = { version = "4", features = ["derive"] }
ethers = { version = "2", default-features = false }
num-bigint = "0.4"
rsa = { version = "0.9", features = ["sha2"] }
