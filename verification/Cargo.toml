[package]
name = "rcpy"
version = "0.1.0"
edition = "2021"
publish = false

[dependencies]
clap = "4"
indicatif = "0.17"
rayon = "1"
walkdir = "2"
