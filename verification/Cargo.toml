[package]
name = "autors"
version = "0.1.0"
edition = "2021"
publish = false

[dependencies]
flate2 = "1"
indexmap = "2"
thiserror = "2"
