[package]
name = "palette_swap"
version = "0.1.1"
edition = "2021"
publish = false

[dependencies]
ase = "*"
clap = "2"
log = "0.4"
simple_logger = "*"
walkdir = "2"
