[package]
name = "runt"
version = "0.1.0"
edition = "2021"
publish = false

[dependencies]
sha2 = "=0.11.1"
sha3 = "=0.12.0"
ark-bn254 = "=0.6.0"
ark-ec = "=0.6.0"
ark-ff = "=0.6.0"
blst = "=0.3.17"
rand = "=0.10.3"
anyhow = "=1.0.104"
clap = { version = "=4.6.7", features = ["derive"] }
serde = { version = "=1.0.229", features = ["derive"] }
serde_json = "=1.0.154"
hex = "=0.4.3"
wasmtime = { version = "=46.0.3", default-features = false, features = ["cranelift", "runtime", "std"] }
