[package]
name = "tracker_lib"
version = "0.1.0"
edition = "2021"
publish = false

[dependencies]
midi-control = { version = "=0.2.3", default-features = false }
crossbeam = "=0.8.5"
