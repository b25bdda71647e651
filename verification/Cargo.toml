[package]
name = "pso2server"
version = "0.1.0"
edition = "2021"
publish = false

[dependencies]
crc32fast = "=1.5.4"
pso2packetlib = "=0.5.0"
parking_lot = "=0.12.5"
rand = "=0.8.8"
serde = { version = "=1.0.229", features = ["derive"] }
log = "=0.4.35"
aes-gcm = "=0.10.3"
md5 = "0.8"
toml = "0.8"
