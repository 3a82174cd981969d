[package]
name = "neurust"
version = "0.1.0"
edition = "2021"
publish = false

[dependencies]
num = "=0.4.3"
cblas-sys = "=0.3.0"
openblas-src = { version = "=0.10.16", features = ["system"] }
