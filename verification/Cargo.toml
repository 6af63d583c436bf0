[package]
name = "rv_git"
version = "0.1.0"
edition = "2021"
publish = false

[dependencies]
fs-err = "*"
log = "*"
