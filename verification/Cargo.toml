[package]
name = "servo_shield"
version = "0.1.0"
edition = "2021"
publish = false

[dependencies]
adblock = "*"
rand = "0.8"
uuid = { version = "1", features = ["v4"] }
serde = { version = "1", features = ["derive"] }
serde_json = "1"
http = "1"
reqwest = { version = "0.12", default-features = false }
libc = "0.2"
log = "0.4"
