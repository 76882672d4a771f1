[package]
name = "zipkin"
version = "0.1.0"
edition = "2021"
publish = false

[dependencies]
http = "1"
rand = "0.8"
