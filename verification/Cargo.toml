[package]
name = "toast"
version = "0.1.0"
edition = "2021"
publish = false

[dependencies]
regex = "1"
argparse = "0.2"
crossterm = "*"
lrpar = "*"
lazy_static = "1"
once_cell = "1"
