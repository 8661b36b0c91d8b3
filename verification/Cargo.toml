[package]
name = "circom_scotia"
version = "0.1.0"
edition = "2021"
publish = false

[dependencies]
bellpepper-core = "=0.4.0"
ff = "=0.13.1"

[dev-dependencies]
fnv = "=1.0.7"
