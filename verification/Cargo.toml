[package]
name = "fifteen_puzzle"
version = "0.1.0"
edition = "2021"

[dependencies]
rand = "*"
