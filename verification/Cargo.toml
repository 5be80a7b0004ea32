[package]
name = "otlyra-app"
version = "0.1.0"
edition = "2021"
publish = false

[dependencies]
jiff = "0.2"
rfd = "0.15"
tracing = "0.1"
