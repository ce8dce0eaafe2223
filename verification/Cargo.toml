[package]
name = "bb_imager"
version = "0.1.0"
edition = "2021"
publish = false

[dependencies]
sha2 = "0.10"
const-hex = "1"
whoami = "1"
serde = { version = "1", features = ["derive"] }
serde_json = "1"
directories = "5"
serialport = { version = "4", default-features = false }
