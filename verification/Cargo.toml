[package]
name = "conway"
version = "0.1.0"
edition = "2021"
publish = false

[dependencies]
num-integer = "0.1"
clap = "2"
termion = "1.5"
