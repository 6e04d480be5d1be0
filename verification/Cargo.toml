[package]
name = "tracing_coz"
version = "0.1.0"
edition = "2021"
publish = false

[dependencies]
chashmap = "2"
coz = "0.1"
tracing = "0.1"
