[package]
name = "cgit"
version = "0.1.0"
edition = "2021"
publish = false

[dependencies]
clap = "*"
fs_extra = "*"
ureq = "*"
zip = "*"
