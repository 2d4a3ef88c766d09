[package]
name = "logq"
version = "0.1.0"
edition = "2021"
publish = false

[dependencies]
clap = "*"
csv = "*"
json = "*"
prettytable-rs = "*"
