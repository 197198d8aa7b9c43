[package]
name = "minacalc_rs"
version = "0.1.0"
edition = "2021"
publish = false

[dependencies]
rhythm-open-exchange = "*"
