[package]
name = "psbt_plan"
version = "0.1.0"
edition = "2021"
publish = false

[dependencies]
bitcoin = "*"
miniscript = "*"
