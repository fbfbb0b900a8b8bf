[package]
name = "list_imd"
version = "0.1.0"
edition = "2021"
publish = false

[dependencies]
ordermap = "*"
