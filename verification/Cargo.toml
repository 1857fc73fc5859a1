[package]
name = "merge_mt"
version = "0.1.0"
edition = "2021"
publish = false

[dependencies]
rand = "*"
