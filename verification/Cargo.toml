[package]
name = "soroban_host_core"
version = "0.1.0"
edition = "2021"
publish = false

[dependencies]
wasmi = "0.31"
stellar-xdr = "*"
