[package]
name = "byte_transcoder"
version = "0.1.0"
edition = "2021"

[dependencies]
uuid = "1"
