[package]
name = "zkvm_recursion"
version = "0.1.0"
edition = "2021"
publish = false

[dependencies]
risc0-zkp = { version = "=1.0.5", features = ["prove"] }
risc0-circuit-rv32im = { version = "=1.0.5", default-features = false }
risc0-circuit-recursion = { version = "=1.0.5", default-features = false }
bytemuck = "=1.25.2"
prost = "=0.12.6"
serde = { version = "=1.0.229", features = ["derive"] }
anyhow = "=1.0.104"
