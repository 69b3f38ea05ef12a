[package]
name = "conways_gol"
version = "0.1.0"
edition = "2021"
publish = false

[dependencies]
rand = "0.8"
gtk4 = "0.6"
catppuccin = "1"
