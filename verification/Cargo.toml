[package]
name = "ockam_api"
version = "0.1.0"
edition = "2021"
publish = false

[dependencies]
minicbor = { version = "*", features = ["alloc", "derive", "std"] }
ockam_core = "*"
tinyvec = { version = "*", features = ["rustc_1_55"] }
