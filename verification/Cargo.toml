[package]
name = "dns_sd"
version = "0.1.0"
edition = "2021"
publish = false

[dependencies]
hostname = "*"
libc = "*"
libloading = "*"
mdns-sd = "*"
once_cell = "*"
