[package]
name = "rusty_fungus"
version = "0.1.0"
edition = "2021"
publish = false

[dependencies]
bimap = "0.6"
rand = "0.8"
clap = "2"
ncurses = "5"
