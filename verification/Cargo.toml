[package]
name = "dmc_match"
version = "0.1.0"
edition = "2021"

[dependencies]
anyhow = "*"
itertools = "*"
owo-colors = "*"
