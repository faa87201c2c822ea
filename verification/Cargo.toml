[package]
name = "qcrosvm"
version = "0.1.0"
edition = "2021"
publish = false

[dependencies]
android_logger = "0.11"
libc = "0.2"
log = "0.4"
simplelog = "0.12"
