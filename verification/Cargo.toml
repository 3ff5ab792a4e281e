[package]
name = "quote"
version = "0.4.2"
edition = "2021"
publish = false

[dependencies]
proc-macro2 = "0.2"
