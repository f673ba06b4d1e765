[package]
name = "rschip8"
version = "0.1.0"
edition = "2021"
publish = false

[dependencies]
rand = "*"
getopts = "*"
sdl2 = "*"
termion = "*"
