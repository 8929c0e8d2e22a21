[package]
name = "matter_ble"
version = "0.1.0"
edition = "2021"
publish = false

[dependencies]
anyhow = "1"
async-trait = "0.1"
btleplug = "0.11"
byteorder = "1"
dialoguer = { version = "0.11", features = ["completion"] }
futures = "0.3"
log = "0.4"
pretty_env_logger = "0.5"
streaming-iterator = "0.1"
tokio = { version = "1", features = ["macros", "rt-multi-thread", "sync", "time"] }
tokio-stream = "0.1"
uuid = "1"
