[package]
name = "sparse_strips"
version = "0.1.0"
edition = "2021"
publish = false

[dependencies]
vello_common = "*"
