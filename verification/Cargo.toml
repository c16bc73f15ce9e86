[package]
name = "gpkbd"
version = "0.1.0"
edition = "2021"
publish = false

[dependencies]
fontdue = "*"
input-linux = "*"
libc = "*"
wayland-client = "*"
wayland-protocols-wlr = { version = "*", features = ["client"] }
