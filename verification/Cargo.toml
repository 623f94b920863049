[package]
name = "warp_real_ip"
version = "0.1.0"
edition = "2021"
publish = false

[dependencies]
ipnetwork = "0.20"
rfc7239 = "0.1"
warp = "0.3"
