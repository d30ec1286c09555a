[package]
name = "kanata"
version = "0.1.0"
edition = "2021"
publish = false

[dependencies]
memchr = "=2.8.3"
glob = "=0.3.4"
