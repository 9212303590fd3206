[package]
name = "opte"
version = "0.1.0"
edition = "2021"
publish = false

[dependencies]
libc = "0.2"
postcard = { version = "1", default-features = false, features = ["alloc"] }
serde = { version = "1", features = ["derive"] }
smoltcp = "0.8"
