[package]
name = "outlap-qss"
version = "0.4.0"
edition = "2021"
publish = false

[dependencies]
thiserror = "2"
