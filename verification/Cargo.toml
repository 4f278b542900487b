[package]
name = "fiemap"
version = "0.1.0"
edition = "2021"

[dependencies]
bitflags = "2"
histo = "*"
walkdir = "2"
