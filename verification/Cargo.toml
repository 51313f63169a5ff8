[package]
name = "runtime"
version = "0.1.0"
edition = "2021"
publish = false

[dependencies]
dryoc = "=2.0.0"
subtle = "=2.6.1"
zeroize = "=1.9.1"
