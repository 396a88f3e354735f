[package]
name = "rtp_media"
version = "0.1.0"
edition = "2021"
publish = false

[dependencies]
bytes = "1"
pretty-hex = "0.3"
