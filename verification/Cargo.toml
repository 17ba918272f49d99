[package]
name = "native_shell"
version = "0.1.0"
edition = "2021"
publish = false

[dependencies]
url = "=2.5.8"
smallvec = "=1.16.4"
itertools = "=0.14.0"
x11rb = "=0.13.2"
anyhow = "=1.0.104"
log = "=0.4.35"
windows-bindgen = "0.66"
windows-core = "0.62"
