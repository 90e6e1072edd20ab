[package]
name = "bridger"
version = "0.1.0"
edition = "2021"
publish = false

[dependencies]
async-trait = "*"
etc = "*"
log = "*"
parity-scale-codec = { version = "3", features = ["derive"] }
serde = { version = "1", features = ["derive"] }
tokio = { version = "1", features = ["time", "rt"] }
toml = "*"
web3 = { version = "*", default-features = false }
