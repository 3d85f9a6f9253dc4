[package]
name = "framepipe"
version = "0.1.0"
edition = "2021"
publish = false

[dependencies]
ctrlc = "3"
libc = "0.2"
nix = "0.26"
v4l = "0.14"
