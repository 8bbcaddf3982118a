[package]
name = "rendezvous"
version = "0.1.0"
edition = "2021"
publish = false

[dependencies]
atomic-wait = "=1.1.0"
adaptive-barrier = "=1.0.0"

[dev-dependencies]
crossbeam-utils = "0.8"
