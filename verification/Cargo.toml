[package]
name = "ext_fut"
version = "0.1.0"
edition = "2021"
publish = false

[dependencies]
ctrlc = "*"
