[package]
name = "cplwm"
version = "0.1.0"
edition = "2021"
publish = false

[dependencies]
exec = "*"
lazy_static = "*"
libc = "*"
log = "*"
rustc-serialize = "*"
x11-dl = "*"
zombie = "*"
