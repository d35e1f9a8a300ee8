[package]
name = "nss_alexandria"
version = "0.1.0"
edition = "2021"
publish = false

[dependencies]
hyper = "0.10"
hyperlocal = "0.3"
libc = "0.2"
rustc-serialize = "0.3"
