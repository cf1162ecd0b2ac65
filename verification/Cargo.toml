[package]
name = "hyper_wire"
version = "0.1.0"
edition = "2021"
publish = false

[dependencies]
hpack = "=0.2.0"
url = "=0.2.38"
