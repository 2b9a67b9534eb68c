[package]
name = "circuit_relay"
version = "0.1.0"
edition = "2021"
publish = false

[dependencies]
either = "1"
rand = "0.8"
