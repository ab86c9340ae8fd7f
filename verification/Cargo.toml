[package]
name = "spdted"
version = "0.1.0"
edition = "2021"

[dependencies]
ndarray = "=0.16.1"
thiserror = "=1.0.69"
