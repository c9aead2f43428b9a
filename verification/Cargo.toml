[package]
name = "chumby_supervisor"
version = "0.1.0"
edition = "2021"
publish = false

[dependencies]
libc = "0.2"
toml = "0.8"
ureq = "3"
zbus = "5"
