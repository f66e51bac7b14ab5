[package]
name = "monkey"
version = "0.1.0"
edition = "2021"
publish = false

[dependencies]
colored = "2"
rustyline = "6"
rustyline-derive = "0.3"
