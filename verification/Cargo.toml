[package]
name = "reroute"
version = "0.1.0"
edition = "2021"
publish = false

[dependencies]
regex = "1"
hyper = "0.12"
futures = "0.1"
