[package]
name = "kerbalobjects"
version = "4.0.0"
edition = "2021"
publish = false

[dependencies]
flate2 = "1"
thiserror = "1"
