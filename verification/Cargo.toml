[package]
name = "thrift_codec"
version = "0.3.0"
edition = "2021"
publish = false

[dependencies]
byteorder = "1"
serde = { version = "1", features = ["derive"] }
trackable = "1"
