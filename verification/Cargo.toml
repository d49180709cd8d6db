[package]
name = "spatializer"
version = "0.1.0"
edition = "2021"
publish = false

[dependencies]
firewheel = { version = "=0.14.0", default-features = false, features = ["std"] }
hrtf = "=0.9.0"
sofar = "=0.3.0"
