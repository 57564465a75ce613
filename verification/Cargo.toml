[package]
name = "showlink"
version = "0.1.0"
edition = "2021"
publish = false

[dependencies]
crossbeam-channel = "*"
chrono = "*"
whoami = "*"
local-ip-address = "*"
