[package]
name = "waybroker"
version = "0.1.0"
edition = "2021"
publish = false

[dependencies]
zeroize = "1"
serde = { version = "1", features = ["derive"] }
serde_json = "1"
anyhow = "1"
log = "0.4"
parking_lot = "0.12"
tokio = { version = "1", features = ["rt-multi-thread", "macros", "time"] }
ash = "0.37"
async-trait = "0.1"
x11rb = "0.13"
