[package]
name = "tile_motion"
version = "0.1.0"
edition = "2021"
publish = false

[dependencies]
rand = "=0.7.3"
bitflags = "=1.3.2"
nannou = "=0.18.1"
