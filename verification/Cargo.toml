[package]
name = "bitwig_monome"
version = "0.1.0"
edition = "2021"
publish = false

[dependencies]
rosc = "=0.11.4"
clap = { version = "=4.6.7", features = ["derive"] }
