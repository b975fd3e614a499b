[package]
name = "splice_relay"
version = "0.1.0"
edition = "2021"
publish = false

[dependencies]
anyhow = "1"
gstreamer = "0.18"
