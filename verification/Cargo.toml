[package]
name = "grass"
version = "0.1.0"
edition = "2021"
publish = false

[dependencies]
codemap = "*"
num-bigint = "0.4"
num-rational = "0.4"
num-traits = "0.2"
peekmore = "*"
