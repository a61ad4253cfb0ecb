[package]
name = "fixed_str"
version = "0.1.0"
edition = "2021"
publish = false

[dependencies]
memchr = "2"
serde = { version = "1", default-features = false }
binrw = "0.14"
