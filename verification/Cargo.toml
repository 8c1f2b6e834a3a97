[package]
name = "hyper_tide"
version = "0.1.0"
edition = "2021"
publish = false

[dependencies]
hyper = { version = "0.14", features = ["server", "http1", "tcp", "runtime"] }
route-recognizer = "0.3"
async-trait = "0.1"
