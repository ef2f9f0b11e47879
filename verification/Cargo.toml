[package]
name = "ext4rs"
version = "0.1.0"
edition = "2021"
publish = false

[dependencies]
axdriver_block = "*"
axerrno = "*"
