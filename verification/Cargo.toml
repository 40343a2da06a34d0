[package]
name = "walldeck"
version = "0.1.0"
edition = "2021"
publish = false

[dependencies]
image = "0.25"
rayon = "1"
smithay-client-toolkit = "0.19"
wayland-client = "0.31"
