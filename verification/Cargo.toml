[package]
name = "shortlink"
version = "0.1.0"
edition = "2021"
publish = false

[dependencies]
dashmap = "5"
rand = "0.8"
rocket = "0.5"
