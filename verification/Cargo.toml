[package]
name = "rusthor"
version = "0.1.0"
edition = "2021"
publish = false

[dependencies]
clap = "=2.34.0"
regex = "=1.13.1"

[dev-dependencies]
bincode = "=1.3.3"
