[package]
name = "akari_udp_core"
version = "0.1.0"
edition = "2021"
publish = false

[dependencies]
hmac = "0.12"
sha2 = "0.10"
chacha20poly1305 = "0.10"
subtle = "2"
hex = "0.4"
