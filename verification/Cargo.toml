[package]
name = "puffin_core"
version = "0.1.0"
edition = "2021"
publish = false

[dependencies]
pep508_rs = "=0.9.2"
